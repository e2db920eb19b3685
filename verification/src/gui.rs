use vstd::prelude::*;
use std::collections::HashMap;
use std::collections::HashSet;
use crate::events::{
    UIEvent, UIEventView, WidgetState, WidgetStateView, MouseButton, Key, retagged, event_kind_index,
};
use crate::widgets::{
    Wid, WidCounter, create_wid, Widget, WidgetView, Modifiers, EventConsumption, consumes,
    view_dependent_on_children, WidgetCallbackRef,
};

verus! {

broadcast use vstd::std_specs::hash::group_hash_axioms;

/// A registered widget, the children registered under it and its current state.
#[derive(Debug)]
pub struct WidgetReification {
    pub widget: Widget,
    pub children: Vec<Wid>,
    pub widget_state: WidgetState,
}

/// The mathematical value of a registered widget.
pub struct NodeView {
    pub widget: WidgetView,
    pub children: Seq<Wid>,
    pub state: WidgetStateView,
}

impl View for WidgetReification {
    type V = NodeView;

    open spec fn view(&self) -> NodeView {
        NodeView { widget: self.widget@, children: self.children@, state: self.widget_state@ }
    }
}

/// The registered widgets by identifier.
pub type NodeMap = Map<usize, NodeView>;

/// The widgets marked as modified when `w` is: `w`, and while the widget just
/// marked has a size that depends on its children, its parent. `None` when the
/// walk meets a widget that is not registered or does not end within `fuel` steps.
pub open spec fn mark_chain(nodes: NodeMap, w: usize, fuel: nat) -> Option<Set<usize>>
    decreases fuel,
{
    if fuel == 0 || !nodes.contains_key(w) {
        None
    } else {
        let n = nodes[w];
        if view_dependent_on_children(n.widget) && n.widget.parent_id is Some {
            match mark_chain(nodes, n.widget.parent_id.unwrap().0, (fuel - 1) as nat) {
                Some(s) => Some(s.insert(w)),
                None => None,
            }
        } else {
            Some(set![w])
        }
    }
}

/// Whether marking `w` as modified ends without meeting an unregistered widget.
pub open spec fn can_mark(nodes: NodeMap, w: usize) -> bool {
    mark_chain(nodes, w, nodes.dom().len()) is Some
}

/// The widgets marked as modified when `w` is.
pub open spec fn marked_by(nodes: NodeMap, w: usize) -> Set<usize> {
    mark_chain(nodes, w, nodes.dom().len()).unwrap()
}

/// The registered widgets after the parent of `w`, if any, lists `w` among its children.
pub open spec fn with_child_registered(nodes: NodeMap, w: WidgetView) -> NodeMap {
    match w.parent_id {
        Some(p) => if nodes[p.0].children.contains(w.id) {
            nodes
        } else {
            nodes.insert(p.0, NodeView { children: nodes[p.0].children.push(w.id), ..nodes[p.0] })
        },
        None => nodes,
    }
}

/// Whether applying widget `w` changes what is registered under its identifier.
pub open spec fn apply_changes(nodes: NodeMap, w: WidgetView) -> bool {
    let n1 = with_child_registered(nodes, w);
    !(n1.contains_key(w.id.0) && n1[w.id.0].widget == w)
}

/// The registered widgets after applying widget `w`: a new widget starts with no
/// children and no state; a changed widget replaces the stored one, without its
/// state override, and its state becomes the override when there is one.
pub open spec fn applied_nodes(nodes: NodeMap, w: WidgetView) -> NodeMap {
    let n1 = with_child_registered(nodes, w);
    if n1.contains_key(w.id.0) {
        let st = n1[w.id.0];
        if st.widget == w {
            n1
        } else {
            n1.insert(
                w.id.0,
                NodeView {
                    widget: WidgetView { state_override: None, ..w },
                    children: st.children,
                    state: match w.state_override {
                        Some(o) => o,
                        None => st.state,
                    },
                },
            )
        }
    } else {
        n1.insert(w.id.0, NodeView { widget: w, children: Seq::empty(), state: WidgetStateView::NoState })
    }
}

/// The walk that marking `k` for a new layout would take once widget `w` is applied
/// to `nodes`: it reads `w` at `w`'s identifier and the stored widgets elsewhere, and
/// says whether it ends within `fuel` steps without meeting an unregistered widget.
pub open spec fn mark_walk_after(nodes: NodeMap, w: WidgetView, k: usize, fuel: nat) -> bool
    decreases fuel,
{
    if fuel == 0 || !(nodes.contains_key(k) || k == w.id.0) {
        false
    } else {
        let x = if k == w.id.0 {
            w
        } else {
            nodes[k].widget
        };
        if view_dependent_on_children(x) && x.parent_id is Some {
            mark_walk_after(nodes, w, x.parent_id.unwrap().0, (fuel - 1) as nat)
        } else {
            true
        }
    }
}

/// Marking after applying a widget whose parent is registered walks as
/// `mark_walk_after` says.
proof fn lemma_mark_after_apply(nodes: NodeMap, w: WidgetView, k: usize, fuel: nat)
    requires
        w.parent_id matches Some(p) ==> nodes.contains_key(p.0),
    ensures
        (mark_chain(applied_nodes(nodes, w), k, fuel) is Some) == mark_walk_after(nodes, w, k, fuel),
    decreases fuel,
{
    let a = applied_nodes(nodes, w);
    let n1 = with_child_registered(nodes, w);
    assert(forall|j: usize| #[trigger] n1.contains_key(j) == nodes.contains_key(j));
    assert(forall|j: usize| nodes.contains_key(j) ==> #[trigger] n1[j].widget == nodes[j].widget);
    assert(a.contains_key(k) == (nodes.contains_key(k) || k == w.id.0));
    if fuel > 0 && a.contains_key(k) {
        if k == w.id.0 {
            assert(a[k].widget.size == w.size && a[k].widget.parent_id == w.parent_id);
        } else {
            assert(a[k].widget == nodes[k].widget);
        }
        let x = a[k].widget;
        if view_dependent_on_children(x) && x.parent_id is Some {
            lemma_mark_after_apply(nodes, w, x.parent_id.unwrap().0, (fuel - 1) as nat);
        }
    }
}

/// Whether widget `w` can be applied to tree `g`: its parent, if any, is registered,
/// and if applying it changes what is registered, marking it for a new layout
/// meets only registered widgets.
pub open spec fn can_apply(g: GUIView, w: WidgetView) -> bool {
    &&& w.parent_id matches Some(p) ==> g.nodes.contains_key(p.0)
    &&& apply_changes(g.nodes, w) ==> can_mark(applied_nodes(g.nodes, w), w.id.0)
}

/// The tree after widget `w` is applied to `g`: the widget is registered or updated,
/// listed under its parent or among the top-level widgets, and, if that changed what
/// is registered, marked for a new layout.
pub open spec fn apply_result(g: GUIView, w: WidgetView) -> GUIView {
    GUIView {
        nodes: applied_nodes(g.nodes, w),
        top_level: if w.parent_id is None {
            g.top_level.insert(w.id.0)
        } else {
            g.top_level
        },
        modified: if apply_changes(g.nodes, w) {
            g.modified.union(marked_by(applied_nodes(g.nodes, w), w.id.0))
        } else {
            g.modified
        },
        ..g
    }
}

/// The widget and tree as they are after `w` is given an identifier, if it has none,
/// from the tree's counter.
pub open spec fn with_identifier(g: GUIView, w: WidgetView) -> (GUIView, WidgetView) {
    if w.id.0 == 0 {
        (
            GUIView { last_wid: (g.last_wid + 1) as usize, ..g },
            WidgetView { id: Wid((g.last_wid + 1) as usize), ..w },
        )
    } else {
        (g, w)
    }
}

/// Whether widget `w` can be given an identifier if it needs one and then applied.
pub open spec fn can_reapply(g: GUIView, w: WidgetView) -> bool {
    &&& w.id.0 == 0 ==> g.last_wid < usize::MAX
    &&& can_apply(with_identifier(g, w).0, with_identifier(g, w).1)
}

/// The tree and the widget after `w` is given an identifier if it needs one and is
/// applied; the widget then holds no state override, the tree having taken it.
pub open spec fn reapply_result(g: GUIView, w: WidgetView) -> (GUIView, WidgetView) {
    let (g1, w1) = with_identifier(g, w);
    (apply_result(g1, w1), WidgetView { state_override: None, ..w1 })
}

/// The mathematical value of the widget tree.
pub struct GUIView {
    pub nodes: NodeMap,
    pub top_level: Set<usize>,
    pub modified: Set<usize>,
    pub focused: Option<Wid>,
    pub queued: Seq<(u64, Seq<UIEventView>)>,
    pub events_by_widget: Map<usize, Seq<UIEventView>>,
    pub modifiers: Modifiers,
    pub moused_over: Option<Wid>,
    pub mouse_button: Option<MouseButton>,
    pub hover_widget: Option<Wid>,
    pub last_wid: usize,
}

/// The events queued for one listener.
#[derive(Debug)]
pub struct EventQueue {
    pub listener: u64,
    pub events: Vec<UIEvent>,
}

/// The identifiers in a list of widget identifiers.
pub open spec fn wid_keys(ws: Seq<Wid>) -> Set<usize> {
    ws.map_values(|c: Wid| c.0).to_set()
}

/// The identifiers a removal of widget `w` forgets: its own and those of the
/// widgets registered as its children.
pub open spec fn removed_with_children(nodes: NodeMap, w: usize) -> Set<usize> {
    wid_keys(nodes[w].children).insert(w)
}

/// The tree after the widgets with identifiers in `ids` are forgotten: their
/// registrations, recorded events, layout marks and top-level places, and focus if
/// one of them has it.
pub open spec fn after_removing(g: GUIView, ids: Set<usize>) -> GUIView {
    GUIView {
        nodes: g.nodes.remove_keys(ids),
        events_by_widget: g.events_by_widget.remove_keys(ids),
        focused: if g.focused matches Some(f) && ids.contains(f.0) {
            None
        } else {
            g.focused
        },
        modified: g.modified.difference(ids),
        top_level: g.top_level.difference(ids),
        ..g
    }
}

/// Whether `w` is in `v`.
fn contains_wid(v: &Vec<Wid>, w: Wid) -> (r: bool)
    ensures
        r == v@.contains(w),
{
    let mut i: usize = 0;
    while i < v.len()
        invariant
            i <= v.len(),
            forall|j: int| 0 <= j < i ==> v@[j] != w,
        decreases v.len() - i,
    {
        if v[i] == w {
            return true;
        }
        i = i + 1;
    }
    false
}

/// The values of a list of events.
pub open spec fn events_view(v: Seq<UIEvent>) -> Seq<UIEventView> {
    v.map_values(|e: UIEvent| e@)
}

/// The listener key of the widget tree itself, which handles the events it raises
/// for its own widgets.
pub const SELF_LISTENER: u64 = 0;

/// The queues of pending events, one per listener.
pub type Queues = Seq<(u64, Seq<UIEventView>)>;

/// Whether listener `l` has a queue.
pub open spec fn has_queue(q: Queues, l: u64) -> bool {
    exists|i: int| 0 <= i < q.len() && q[i].0 == l
}

/// The position of listener `l`'s first queue.
pub open spec fn queue_index(q: Queues, l: u64) -> int {
    choose|i: int| 0 <= i < q.len() && q[i].0 == l && forall|j: int| 0 <= j < i ==> q[j].0 != l
}

/// The queues after `e` is appended to every queue, or, unless `all`, to every queue
/// but that of the tree itself.
pub open spec fn queues_with(q: Queues, e: UIEventView, all: bool) -> Queues {
    Seq::new(
        q.len(),
        |i: int| if all || q[i].0 != SELF_LISTENER { (q[i].0, q[i].1.push(e)) } else { q[i] },
    )
}

/// The modifier keys held after event `e`: a press of a control, shift or alt
/// key sets that modifier, a release clears it.
pub open spec fn modifiers_after(m: Modifiers, e: UIEventView) -> Modifiers {
    match e {
        UIEventView::KeyPress { key } => match key {
            Key::LCtrl | Key::RCtrl => Modifiers { ctrl: true, ..m },
            Key::LShift | Key::RShift => Modifiers { shift: true, ..m },
            Key::LAlt | Key::RAlt => Modifiers { alt: true, ..m },
            _ => m,
        },
        UIEventView::KeyRelease { key } => match key {
            Key::LCtrl | Key::RCtrl => Modifiers { ctrl: false, ..m },
            Key::LShift | Key::RShift => Modifiers { shift: false, ..m },
            Key::LAlt | Key::RAlt => Modifiers { alt: false, ..m },
            _ => m,
        },
        _ => m,
    }
}

/// The mouse button held after event `e`: a press holds its button, a release
/// holds none.
pub open spec fn mouse_button_after(b: Option<MouseButton>, e: UIEventView) -> Option<MouseButton> {
    match e {
        UIEventView::MousePress { button } => Some(button),
        UIEventView::MouseRelease { .. } => None,
        _ => b,
    }
}

/// The widget an event goes to: text and key events to the focused widget, an
/// entry or exit to the widget entered or left, widget and custom events to the
/// widget that raised them, every other event to the widget under the mouse.
pub open spec fn route_for(e: UIEventView, focused: Option<Wid>, moused: Option<Wid>) -> Option<Wid> {
    match e {
        UIEventView::Text { .. } => focused,
        UIEventView::KeyPress { .. } => focused,
        UIEventView::KeyRelease { .. } => focused,
        UIEventView::MouseEntered { to_widget, .. } => Some(to_widget),
        UIEventView::MouseExited { from_widget, .. } => Some(from_widget),
        UIEventView::WidgetEvent { originating_widget, .. } => Some(originating_widget),
        UIEventView::CustomEvent { originating_widget, .. } => Some(originating_widget),
        _ => moused,
    }
}

/// Typed text and keys go to the focused widget, whatever widget the mouse is over;
/// mouse presses, releases and moves go to the widget under the mouse, whatever
/// has focus; entering, leaving, widget and custom events go to the widget they
/// name, whatever has focus and whatever the mouse is over.
pub proof fn lemma_routing_by_kind(e: UIEventView, focused: Option<Wid>, moused: Option<Wid>, other: Option<Wid>)
    ensures
        (e is Text || e is KeyPress || e is KeyRelease) ==> route_for(e, focused, moused) == focused
            && route_for(e, focused, other) == focused,
        (e is MousePress || e is MouseRelease || e is MousePosition || e is MouseDrag) ==> route_for(
            e,
            focused,
            moused,
        ) == moused && route_for(e, other, moused) == moused,
        e matches UIEventView::MouseEntered { to_widget, .. } ==> route_for(e, focused, moused) == Some(to_widget),
        e matches UIEventView::MouseExited { from_widget, .. } ==> route_for(e, focused, moused) == Some(from_widget),
        e matches UIEventView::WidgetEvent { originating_widget, .. } ==> route_for(e, focused, moused) == Some(
            originating_widget,
        ),
        e matches UIEventView::CustomEvent { originating_widget, .. } ==> route_for(e, focused, moused) == Some(
            originating_widget,
        ),
{
}

/// Whether event `e` moves the mouse in a way that changes what it is over.
pub open spec fn moves_pointer(e: UIEventView) -> bool {
    e is MousePosition || e is MouseDrag
}

/// The queues after the mouse moves onto `route`: a hover in progress ends, and if
/// the mouse is over another widget than before, it exits the old one and enters
/// the new one.
pub open spec fn pointer_move_queues(q: Queues, hover: Option<Wid>, moused: Option<Wid>, route: Option<Wid>) -> Queues {
    let q1 = match hover {
        Some(h) => queues_with(q, UIEventView::HoverEnd { over_widget: h }, true),
        None => q,
    };
    if route == moused {
        q1
    } else {
        let q2 = match moused {
            Some(p) => queues_with(q1, UIEventView::MouseExited { from_widget: p, to_widget: route }, true),
            None => q1,
        };
        match route {
            Some(n) => queues_with(q2, UIEventView::MouseEntered { from_widget: moused, to_widget: n }, true),
            None => q2,
        }
    }
}

/// Events of one kind that agree on their key are consumed alike.
pub proof fn lemma_consumes_same_kind(c: EventConsumption, a: UIEvent, b: UIEvent)
    requires
        event_kind_index(a) == event_kind_index(b),
        a is KeyPress ==> a == b,
        a is KeyRelease ==> a == b,
    ensures
        consumes(c, a) == consumes(c, b),
    decreases c,
{
    match c {
        EventConsumption::Compound(x, y) => {
            lemma_consumes_same_kind(*x, a, b);
            lemma_consumes_same_kind(*y, a, b);
        },
        _ => {},
    }
}

/// The walk of event `e` up the tree from widget `w`: the widgets it reaches, in
/// order, and whether the last of them consumes it. It stops at the first widget
/// that consumes the event or has no parent. `None` when the walk meets a widget
/// that is not registered or does not stop within `fuel` widgets.
pub open spec fn bubble(nodes: NodeMap, w: Wid, e: UIEvent, fuel: nat) -> Option<(Seq<Wid>, bool)>
    decreases fuel,
{
    if fuel == 0 || !nodes.contains_key(w.0) {
        None
    } else {
        let n = nodes[w.0].widget;
        if consumes(n.event_consumption, e) {
            Some((seq![w], true))
        } else {
            match n.parent_id {
                None => Some((seq![w], false)),
                Some(p) => match bubble(nodes, p, e, (fuel - 1) as nat) {
                    Some(r) => Some((seq![w] + r.0, r.1)),
                    None => None,
                },
            }
        }
    }
}

/// Whether the walk of `e` from `w` stops, within as many steps as there are
/// registered widgets, at a registered widget.
pub open spec fn can_bubble(nodes: NodeMap, w: Wid, e: UIEvent) -> bool {
    bubble(nodes, w, e, nodes.dom().len()) is Some
}

/// The widgets the walk of `e` from `w` reaches.
pub open spec fn bubble_path(nodes: NodeMap, w: Wid, e: UIEvent) -> Seq<Wid> {
    bubble(nodes, w, e, nodes.dom().len()).unwrap().0
}

/// Whether a widget on the walk of `e` from `w` consumes it.
pub open spec fn bubble_consumed(nodes: NodeMap, w: Wid, e: UIEvent) -> bool {
    bubble(nodes, w, e, nodes.dom().len()).unwrap().1
}

/// The event as the `k`-th widget of a walk gets it: a widget event is re-tagged by
/// each widget that passes it on.
pub open spec fn event_at(e: UIEventView, path: Seq<Wid>, k: int) -> UIEventView {
    if k == 0 {
        e
    } else {
        retagged(e, path[k - 1])
    }
}

/// The focus after widget `w` has handled `e`: a mouse release gives focus to `w`
/// if it accepts focus and takes focus away otherwise.
pub open spec fn focus_after(focused: Option<Wid>, nodes: NodeMap, w: Wid, e: UIEventView) -> Option<Wid> {
    if e is MouseRelease {
        if nodes[w.0].widget.accepts_focus {
            Some(w)
        } else {
            None
        }
    } else {
        focused
    }
}

/// The identifiers of a list of callback references.
pub open spec fn callback_ids(cs: Seq<WidgetCallbackRef>) -> Seq<u32> {
    cs.map_values(|c: WidgetCallbackRef| c.spec_id())
}

/// What one widget does with an event: it consumed it, or it has no parent and
/// the event goes no further (`Handled`), or it passes the event on to its parent.
#[derive(Debug)]
pub enum BubbleStep {
    Handled(bool),
    PassTo(Wid, UIEvent),
}

/// A widget reached by an event: the event as it got it, and the identifiers of the
/// callbacks it carries, which run on that event in this order.
#[derive(Debug)]
pub struct Visit {
    pub wid: Wid,
    pub event: UIEvent,
    pub callbacks: Vec<u32>,
}

/// The queues after each of `evs`, in order, is appended to every queue.
pub open spec fn queues_with_all(q: Queues, evs: Seq<UIEventView>) -> Queues
    decreases evs.len(),
{
    if evs.len() == 0 {
        q
    } else {
        queues_with(queues_with_all(q, evs.drop_last()), evs.last(), true)
    }
}

/// The events recorded for widget `w` after `e` is recorded for it.
pub open spec fn with_recorded(m: Map<usize, Seq<UIEventView>>, w: usize, e: UIEventView) -> Map<usize, Seq<UIEventView>> {
    if m.contains_key(w) {
        m.insert(w, m[w].push(e))
    } else {
        m.insert(w, seq![e])
    }
}

/// The number of ancestors of `w`, counted up to `fuel` steps; `None` when the
/// walk meets a widget that is not registered or does not reach a widget without
/// parent within `fuel` steps.
pub open spec fn depth(nodes: NodeMap, w: Wid, fuel: nat) -> Option<nat>
    decreases fuel,
{
    if fuel == 0 || !nodes.contains_key(w.0) {
        None
    } else {
        match nodes[w.0].widget.parent_id {
            None => Some(0),
            Some(p) => match depth(nodes, p, (fuel - 1) as nat) {
                Some(d) => Some(d + 1),
                None => None,
            },
        }
    }
}

/// What the callbacks of one widget decided while it handled an event: its new
/// state and the events it raised. Alterations of widgets stay with the caller.
#[derive(Debug)]
pub struct WidgetContext {
    pub widget_id: Wid,
    pub widget_state: WidgetState,
    pub triggered_events: Vec<UIEvent>,
}

impl WidgetContext {
    /// Raises `event`, to be sent to every listener.
    pub fn trigger_event(&mut self, event: UIEvent)
        ensures
            final(self).widget_id == old(self).widget_id,
            final(self).widget_state == old(self).widget_state,
            final(self).triggered_events@ == old(self).triggered_events@.push(event),
    {
        self.triggered_events.push(event);
    }

    /// Sets the widget's new state.
    pub fn update_state(&mut self, new_state: WidgetState)
        ensures
            final(self).widget_id == old(self).widget_id,
            final(self).widget_state == new_state,
            final(self).triggered_events@ == old(self).triggered_events@,
    {
        self.widget_state = new_state;
    }
}

/// An empty list of events, handed out for widgets that have recorded none.
struct NoEvents {
    events: Vec<UIEvent>,
}

impl NoEvents {
    #[verifier::type_invariant]
    spec fn is_empty(&self) -> bool {
        self.events@.len() == 0
    }
}

/// The registered widgets by identifier; no registered widget lists a child twice.
#[derive(Debug)]
struct Registry {
    map: HashMap<usize, WidgetReification>,
}

impl View for Registry {
    type V = Map<usize, WidgetReification>;

    closed spec fn view(&self) -> Map<usize, WidgetReification> {
        self.map@
    }
}

impl Registry {
    #[verifier::type_invariant]
    spec fn children_unique(&self) -> bool {
        forall|k: usize| #[trigger] self.map@.contains_key(k) ==> self.map@[k].children@.no_duplicates()
    }

    /// No widget registered.
    fn new() -> (r: Registry)
        ensures
            r@ == Map::<usize, WidgetReification>::empty(),
    {
        Registry { map: HashMap::new() }
    }

    fn get(&self, k: &usize) -> (r: Option<&WidgetReification>)
        ensures
            match r {
                Some(v) => self@.contains_key(*k) && *v == self@[*k],
                None => !self@.contains_key(*k),
            },
    {
        self.map.get(k)
    }

    fn contains_key(&self, k: &usize) -> (r: bool)
        ensures
            r == self@.contains_key(*k),
    {
        self.map.contains_key(k)
    }

    fn len(&self) -> (n: usize)
        ensures
            n == self@.dom().len(),
    {
        self.map.len()
    }

    fn remove(&mut self, k: &usize) -> (r: Option<WidgetReification>)
        ensures
            final(self)@ == old(self)@.remove(*k),
            match r {
                Some(v) => old(self)@.contains_key(*k) && v == old(self)@[*k] && v.children@.no_duplicates(),
                None => !old(self)@.contains_key(*k),
            },
    {
        proof {
            use_type_invariant(&*self);
        }
        let mut m: HashMap<usize, WidgetReification> = HashMap::new();
        std::mem::swap(&mut m, &mut self.map);
        let r = m.remove(k);
        std::mem::swap(&mut m, &mut self.map);
        r
    }

    fn insert(&mut self, k: usize, v: WidgetReification)
        requires
            v.children@.no_duplicates(),
        ensures
            final(self)@ == old(self)@.insert(k, v),
    {
        proof {
            use_type_invariant(&*self);
        }
        let mut m: HashMap<usize, WidgetReification> = HashMap::new();
        std::mem::swap(&mut m, &mut self.map);
        m.insert(k, v);
        std::mem::swap(&mut m, &mut self.map);
    }
}

/// The widget tree: registered widgets, the top-level ones, which need a new
/// layout, which has focus and which the mouse is over, the events recorded for
/// each widget and those queued for each listener.
pub struct GUI {
    widget_reifications: Registry,
    top_level_widgets: HashSet<usize>,
    modified_set: HashSet<usize>,
    focused_widget: Option<Wid>,
    queued_events: Vec<EventQueue>,
    events_by_widget: HashMap<usize, Vec<UIEvent>>,
    empty_vec: NoEvents,
    active_modifiers: Modifiers,
    moused_over_widget: Option<Wid>,
    active_mouse_button: Option<MouseButton>,
    hover_widget: Option<Wid>,
    wid_counter: WidCounter,
}

impl View for GUI {
    type V = GUIView;

    closed spec fn view(&self) -> GUIView {
        GUIView {
            nodes: self.widget_reifications@.map_values(|r: WidgetReification| r@),
            top_level: self.top_level_widgets@,
            modified: self.modified_set@,
            focused: self.focused_widget,
            queued: self.queued_events@.map_values(|q: EventQueue| (q.listener, events_view(q.events@))),
            events_by_widget: self.events_by_widget@.map_values(|v: Vec<UIEvent>| events_view(v@)),
            modifiers: self.active_modifiers,
            moused_over: self.moused_over_widget,
            mouse_button: self.active_mouse_button,
            hover_widget: self.hover_widget,
            last_wid: self.wid_counter.last,
        }
    }
}

impl GUI {

    /// An empty tree.
    pub fn new() -> (g: GUI)
        ensures
            g@.nodes == Map::<usize, NodeView>::empty(),
            g@.top_level == Set::<usize>::empty(),
            g@.modified == Set::<usize>::empty(),
            g@.focused.is_none(),
            g@.queued.len() == 0,
            g@.events_by_widget == Map::<usize, Seq<UIEventView>>::empty(),
            g@.modifiers == (Modifiers { ctrl: false, shift: false, alt: false }),
            g@.moused_over.is_none(),
            g@.mouse_button.is_none(),
            g@.hover_widget.is_none(),
            g@.last_wid == 0,
            children_listed_once(g@.nodes),
            tree_consistent(g@),
    {
        let g = GUI {
            widget_reifications: Registry::new(),
            top_level_widgets: HashSet::new(),
            modified_set: HashSet::new(),
            focused_widget: None,
            queued_events: Vec::new(),
            events_by_widget: HashMap::new(),
            empty_vec: NoEvents { events: Vec::new() },
            active_modifiers: Modifiers { ctrl: false, shift: false, alt: false },
            moused_over_widget: None,
            active_mouse_button: None,
            hover_widget: None,
            wid_counter: WidCounter::new(),
        };
        g
    }

    /// A fresh widget identifier.
    pub fn new_id(&mut self) -> (w: Wid)
        requires
            old(self)@.last_wid < usize::MAX,
        ensures
            final(self)@ == (GUIView { last_wid: (old(self)@.last_wid + 1) as usize, ..old(self)@ }),
            w.0 == old(self)@.last_wid + 1,
    {
        create_wid(&mut self.wid_counter)
    }

    /// Marks `w` as needing a new layout, and while the widget just marked has a size
    /// that depends on its children, its parent too.
    fn mark_rec(&mut self, w: usize, fuel: usize)
        requires
            mark_chain(old(self)@.nodes, w, fuel as nat) is Some,
        ensures
            final(self)@ == (GUIView {
                modified: old(self)@.modified.union(mark_chain(old(self)@.nodes, w, fuel as nat).unwrap()),
                ..old(self)@
            }),
        decreases fuel,
    {
        self.modified_set.insert(w);
        let (dependent, parent) = match self.widget_reifications.get(&w) {
            Some(r) => (r.widget.dependent_on_children(), r.widget.parent_id),
            None => (false, None),
        };
        if dependent {
            if let Some(p) = parent {
                self.mark_rec(p.0, fuel - 1);
                assert(self@.modified =~= old(self)@.modified.union(
                    mark_chain(old(self)@.nodes, w, fuel as nat).unwrap(),
                ));
                return ;
            }
        }
        assert(self@.modified =~= old(self)@.modified.union(mark_chain(old(self)@.nodes, w, fuel as nat).unwrap()));
        assert(self@ =~= (GUIView {
            modified: old(self)@.modified.union(mark_chain(old(self)@.nodes, w, fuel as nat).unwrap()),
            ..old(self)@
        }));
    }

    /// Marks `wid` as needing a new layout, and while the widget just marked has a
    /// size that depends on its children, its parent too.
    pub fn mark_widget_modified(&mut self, wid: Wid)
        requires
            can_mark(old(self)@.nodes, wid.0),
        ensures
            final(self)@ == (GUIView {
                modified: old(self)@.modified.union(marked_by(old(self)@.nodes, wid.0)),
                ..old(self)@
            }),
    {
        let n = self.widget_reifications.len();
        assert(self@.nodes.dom() =~= self.widget_reifications@.dom());
        self.mark_rec(wid.0, n);
    }

    /// Whether `widget` can be applied: its parent, if any, is registered, and if
    /// applying it changes what is registered, marking it meets only registered
    /// widgets; so that `apply_widget` may be called.
    pub fn can_apply_widget(&self, widget: &Widget) -> (r: bool)
        ensures
            r == can_apply(self@, widget@),
    {
        assert(self@.nodes.dom() =~= self.widget_reifications@.dom());
        let ghost nodes = self@.nodes;
        let w = widget.id.0;
        if let Some(p) = widget.parent_id {
            if !self.widget_reifications.contains_key(&p.0) {
                return false;
            }
        }
        let n1_changes = match self.widget_reifications.get(&w) {
            Some(r) => !r.widget.same_as(widget),
            None => true,
        };
        proof {
            let n1 = with_child_registered(nodes, widget@);
            assert(forall|j: usize| #[trigger] n1.contains_key(j) == nodes.contains_key(j));
            assert(forall|j: usize| nodes.contains_key(j) ==> #[trigger] n1[j].widget == nodes[j].widget);
            assert(n1_changes == apply_changes(nodes, widget@));
        }
        if !n1_changes {
            return true;
        }
        let n = self.widget_reifications.len();
        let registered = self.widget_reifications.contains_key(&w);
        let total: u128 = if registered { n as u128 } else { n as u128 + 1 };
        proof {
            let a = applied_nodes(nodes, widget@);
            assert(a.dom() =~= nodes.dom().insert(w));
            assert(a.dom().len() == total);
            lemma_mark_after_apply(nodes, widget@, w, total as nat);
            assert(can_apply(self@, widget@) == mark_walk_after(nodes, widget@, w, total as nat));
        }
        let mut cur: usize = w;
        let mut fuel: u128 = total;
        loop
            invariant
                nodes == self@.nodes,
                w == widget@.id.0,
                can_apply(self@, widget@) == mark_walk_after(nodes, widget@, w, total as nat),
                widget@.parent_id matches Some(p) ==> nodes.contains_key(p.0),
                mark_walk_after(nodes, widget@, cur, fuel as nat) == mark_walk_after(nodes, widget@, w, total as nat),
            decreases fuel,
        {
            if fuel == 0 {
                return false;
            }
            let (dependent, parent) = if cur == w {
                (widget.dependent_on_children(), widget.parent_id)
            } else {
                match self.widget_reifications.get(&cur) {
                    None => {
                        return false;
                    },
                    Some(r) => {
                        assert(nodes[cur].widget == r.widget@);
                        (r.widget.dependent_on_children(), r.widget.parent_id)
                    },
                }
            };
            if dependent {
                match parent {
                    Some(p) => {
                        cur = p.0;
                        fuel = fuel - 1;
                    },
                    None => {
                        return true;
                    },
                }
            } else {
                return true;
            }
        }
    }

    /// Whether `widget` can be given an identifier if it needs one and then be
    /// applied, so that `Widget::reapply` may be called.
    pub fn can_reapply_widget(&self, widget: &Widget) -> (r: bool)
        ensures
            r == can_reapply(self@, widget@),
    {
        if widget.id.0 == 0 {
            if self.wid_counter.last == usize::MAX {
                return false;
            }
            let mut w = widget.duplicate();
            w.id = Wid(self.wid_counter.last + 1);
            let r = self.can_apply_widget(&w);
            proof {
                assert(w@ == with_identifier(self@, widget@).1);
            }
            r
        } else {
            self.can_apply_widget(widget)
        }
    }

    /// Whether marking `wid` for a new layout meets only registered widgets, so that
    /// `mark_widget_modified` may be called.
    pub fn can_mark_widget(&self, wid: Wid) -> (r: bool)
        ensures
            r == can_mark(self@.nodes, wid.0),
    {
        let n = self.widget_reifications.len();
        assert(self@.nodes.dom() =~= self.widget_reifications@.dom());
        let ghost nodes = self@.nodes;
        let mut cur: usize = wid.0;
        let mut fuel: usize = n;
        loop
            invariant
                nodes == self@.nodes,
                nodes.dom().len() == n,
                (mark_chain(nodes, cur, fuel as nat) is Some) == (mark_chain(nodes, wid.0, n as nat) is Some),
            decreases fuel,
        {
            if fuel == 0 {
                return false;
            }
            match self.widget_reifications.get(&cur) {
                None => {
                    return false;
                },
                Some(r) => {
                    assert(nodes[cur].widget == r.widget@);
                    if r.widget.dependent_on_children() {
                        match r.widget.parent_id {
                            Some(p) => {
                                cur = p.0;
                                fuel = fuel - 1;
                            },
                            None => {
                                return true;
                            },
                        }
                    } else {
                        return true;
                    }
                },
            }
        }
    }

    /// Whether the walk of `e` from `wid` up the tree stops at a registered widget
    /// within as many steps as there are widgets, so that `handle_event_widget` may
    /// be called.
    pub fn can_handle_from(&self, wid: Wid, e: &UIEvent) -> (r: bool)
        ensures
            r == can_bubble(self@.nodes, wid, *e),
    {
        let n = self.widget_reifications.len();
        assert(self@.nodes.dom() =~= self.widget_reifications@.dom());
        let ghost nodes = self@.nodes;
        let mut cur: Wid = wid;
        let mut fuel: usize = n;
        loop
            invariant
                nodes == self@.nodes,
                nodes.dom().len() == n,
                (bubble(nodes, cur, *e, fuel as nat) is Some) == (bubble(nodes, wid, *e, n as nat) is Some),
            decreases fuel,
        {
            if fuel == 0 {
                return false;
            }
            match self.widget_reifications.get(&cur.0) {
                None => {
                    return false;
                },
                Some(r) => {
                    assert(nodes[cur.0].widget == r.widget@);
                    if r.widget.event_consumption.consumes_event(e) {
                        return true;
                    }
                    match r.widget.parent_id {
                        Some(p) => {
                            cur = p;
                            fuel = fuel - 1;
                        },
                        None => {
                            return true;
                        },
                    }
                },
            }
        }
    }

    /// Registers `widget` or updates its registration: it is listed among its
    /// parent's children (or among the top-level widgets if it has no parent); a
    /// widget not yet registered is stored with no children and no state; a stored
    /// widget that differs is replaced, without its state override, and the state
    /// takes the override's value if there is one. A widget newly stored or
    /// changed is marked as needing a new layout.
    pub fn apply_widget(&mut self, widget: &Widget)
        requires
            can_apply(old(self)@, widget@),
        ensures
            final(self)@.nodes.contains_key(widget@.id.0),
            widget@.parent_id matches Some(p) ==> final(self)@.nodes[p.0].children.contains(widget@.id)
                && final(self)@.nodes[p.0].children.no_duplicates(),
            widget@.parent_id is None ==> final(self)@.top_level.contains(widget@.id.0),
            children_listed_once(final(self)@.nodes),
            final(self)@ == apply_result(old(self)@, widget@),
    {
        proof {
            use_type_invariant(&self.widget_reifications);
            assert(children_listed_once(self@.nodes));
            lemma_apply_lists_once(self@, widget@);
        }
        let wid = widget.id;
        let ghost nodes0 = self@.nodes;
        if let Some(parent) = widget.parent_id {
            let removed = self.widget_reifications.remove(&parent.0);
            if let Some(mut parent_state) = removed {
                if !contains_wid(&parent_state.children, wid) {
                    parent_state.children.push(wid);
                }
                self.widget_reifications.insert(parent.0, parent_state);
            }
        } else {
            self.top_level_widgets.insert(wid.0);
        }
        assert(self@.nodes =~= with_child_registered(nodes0, widget@));
        let ghost nodes1 = self@.nodes;
        let existing = self.widget_reifications.remove(&wid.0);
        match existing {
            Some(mut state) => {
                if !state.widget.same_as(widget) {
                    let mut stored = widget.duplicate();
                    stored.state_override = None;
                    state.widget = stored;
                    if let Some(o) = &widget.state_override {
                        if !state.widget_state.same_as(o) {
                            state.widget_state = o.duplicate();
                        }
                    }
                    self.widget_reifications.insert(wid.0, state);
                    assert(self@.nodes =~= applied_nodes(nodes0, widget@));
                    self.mark_widget_modified(wid);
                } else {
                    self.widget_reifications.insert(wid.0, state);
                    assert(self@.nodes =~= nodes1);
                }
            },
            None => {
                let r = WidgetReification {
                    widget: widget.duplicate(),
                    children: Vec::new(),
                    widget_state: WidgetState::NoState,
                };
                self.widget_reifications.insert(wid.0, r);
                assert(self@.nodes =~= applied_nodes(nodes0, widget@));
                self.mark_widget_modified(wid);
            },
        }
    }

    /// Removes a registered widget together with the widgets registered as its
    /// children, and takes its identifier away; a widget that was never given an
    /// identifier is left as it is.
    pub fn remove_widget(&mut self, widget: &mut Widget)
        requires
            old(widget)@.id.0 != 0 ==> old(self)@.nodes.contains_key(old(widget)@.id.0),
        ensures
            children_listed_once(final(self)@.nodes),
            old(widget)@.id.0 == 0 ==> final(self)@ == old(self)@ && final(widget)@ == old(widget)@,
            old(widget)@.id.0 != 0 ==> {
                &&& final(widget)@ == (WidgetView { id: Wid(0), ..old(widget)@ })
                &&& final(self)@ == after_removing(
                    old(self)@,
                    removed_with_children(old(self)@.nodes, old(widget)@.id.0),
                )
            },
    {
        proof {
            use_type_invariant(&self.widget_reifications);
            assert(children_listed_once(self@.nodes));
        }
        if widget.has_id() {
            let wid = widget.id();
            let ghost g0 = self@;
            let existing = self.widget_reifications.remove(&wid.0);
            let existing_state = existing.unwrap();
            let children = existing_state.children;
            proof {
                let none = wid_keys(children@.subrange(0, 0));
                assert(self@.nodes =~= g0.nodes.remove_keys(none).remove(wid.0));
                assert(g0.events_by_widget =~= g0.events_by_widget.remove_keys(none));
                assert(g0.modified =~= g0.modified.difference(none));
                assert(g0.top_level =~= g0.top_level.difference(none));
            }
            let mut i: usize = 0;
            while i < children.len()
                invariant
                    i <= children.len(),
                    children@ == g0.nodes[wid.0].children,
                    ({
                        let a = after_removing(g0, wid_keys(children@.subrange(0, i as int)));
                        self@ == (GUIView { nodes: a.nodes.remove(wid.0), ..a })
                    }),
                decreases children.len() - i,
            {
                let ghost before = wid_keys(children@.subrange(0, i as int));
                self.remove_widget_by_id(children[i]);
                i = i + 1;
                proof {
                    let after = wid_keys(children@.subrange(0, i as int));
                    let prev = children@.subrange(0, i - 1);
                    assert(children@.subrange(0, i as int) =~= prev.push(children@[i - 1]));
                    assert(prev.push(children@[i - 1]).map_values(|c: Wid| c.0) =~= prev.map_values(
                        |c: Wid| c.0,
                    ).push(children@[i - 1].0));
                    prev.map_values(|c: Wid| c.0).lemma_push_to_set_commute(children@[i - 1].0);
                    assert(self@.nodes =~= after_removing(g0, after).nodes.remove(wid.0));
                    assert(self@.events_by_widget =~= after_removing(g0, after).events_by_widget);
                    assert(self@.modified =~= after_removing(g0, after).modified);
                    assert(self@.top_level =~= after_removing(g0, after).top_level);
                }
            }
            self.remove_widget_by_id(wid);
            widget.clear_id();
            proof {
                let all = wid_keys(children@.subrange(0, children@.len() as int));
                assert(children@.subrange(0, children@.len() as int) =~= children@);
                let gone = removed_with_children(g0.nodes, wid.0);
                assert(self@.nodes =~= after_removing(g0, gone).nodes);
                assert(self@.events_by_widget =~= after_removing(g0, gone).events_by_widget);
                assert(self@.modified =~= after_removing(g0, gone).modified);
                assert(self@.top_level =~= after_removing(g0, gone).top_level);
            }
        }
    }

    /// Forgets widget `wid`: its registration, its recorded events, its layout mark,
    /// its place among the top-level widgets, and focus if it has it.
    pub fn remove_widget_by_id(&mut self, wid: Wid)
        ensures
            children_listed_once(final(self)@.nodes),
            final(self)@ == after_removing(old(self)@, set![wid.0]),
    {
        proof {
            use_type_invariant(&self.widget_reifications);
            assert(children_listed_once(self@.nodes));
        }
        self.widget_reifications.remove(&wid.0);
        self.events_by_widget.remove(&wid.0);
        if self.focused_widget == Some(wid) {
            self.focused_widget = None;
        }
        self.modified_set.remove(&wid.0);
        self.top_level_widgets.remove(&wid.0);
        assert(self@.nodes =~= old(self)@.nodes.remove_keys(set![wid.0]));
        assert(self@.events_by_widget =~= old(self)@.events_by_widget.remove_keys(set![wid.0]));
        assert(self@.modified =~= old(self)@.modified.difference(set![wid.0]));
        assert(self@.top_level =~= old(self)@.top_level.difference(set![wid.0]));
    }

    /// Appends a copy of `evt` to every listener's queue (`all`), or to every queue
    /// but the tree's own.
    fn enqueue_to(&mut self, evt: &UIEvent, all: bool)
        ensures
            final(self)@ == (GUIView { queued: queues_with(old(self)@.queued, evt@, all), ..old(self)@ }),
    {
        let ghost q0 = self@.queued;
        let n = self.queued_events.len();
        let mut i: usize = 0;
        while i < n
            invariant
                n == q0.len(),
                i <= n,
                self@.queued.len() == n,
                forall|j: int| 0 <= j < i ==> #[trigger] self@.queued[j] == queues_with(q0, evt@, all)[j],
                forall|j: int| i <= j < n ==> #[trigger] self@.queued[j] == q0[j],
                self@ == (GUIView { queued: self@.queued, ..old(self)@ }),
            decreases n - i,
        {
            let ghost prev = self.queued_events@;
            let ghost qv = self@.queued;
            if all || self.queued_events[i].listener != SELF_LISTENER {
                let e = evt.duplicate();
                let mut q = self.queued_events.remove(i);
                q.events.push(e);
                self.queued_events.insert(i, q);
                proof {
                    assert(qv[i as int] == (prev[i as int].listener, events_view(prev[i as int].events@)));
                    assert(events_view(q.events@) =~= events_view(prev[i as int].events@).push(evt@));
                    assert(self@.queued =~= qv.update(i as int, queues_with(q0, evt@, all)[i as int]));
                }
            }
            i = i + 1;
        }
        assert(self@.queued =~= queues_with(q0, evt@, all));
    }

    /// Appends a copy of `evt` to every listener's queue.
    pub fn enqueue_event(&mut self, evt: &UIEvent)
        ensures
            final(self)@ == (GUIView { queued: queues_with(old(self)@.queued, evt@, true), ..old(self)@ }),
    {
        self.enqueue_to(evt, true)
    }

    /// Appends a copy of `evt` to every listener's queue but the tree's own.
    pub fn enqueue_event_excepting_self(&mut self, evt: &UIEvent)
        ensures
            final(self)@ == (GUIView { queued: queues_with(old(self)@.queued, evt@, false), ..old(self)@ }),
    {
        self.enqueue_to(evt, false)
    }

    /// Hands out the events queued for `listener` and drops its queue, so that events
    /// sent before it has a queue again do not reach it; a listener without a queue
    /// gets nothing.
    pub fn remove_queue(&mut self, listener: u64) -> (r: Vec<UIEvent>)
        ensures
            has_queue(old(self)@.queued, listener) ==> {
                let i = queue_index(old(self)@.queued, listener);
                &&& events_view(r@) == old(self)@.queued[i].1
                &&& final(self)@ == (GUIView { queued: old(self)@.queued.remove(i), ..old(self)@ })
            },
            !has_queue(old(self)@.queued, listener) ==> r@.len() == 0 && final(self)@ == old(self)@,
    {
        let ghost q0 = self@.queued;
        let n = self.queued_events.len();
        let mut i: usize = 0;
        while i < n
            invariant
                n == q0.len(),
                n == self.queued_events@.len(),
                i <= n,
                self@ == old(self)@,
                q0 == old(self)@.queued,
                forall|j: int| 0 <= j < i ==> (#[trigger] self.queued_events@[j]).listener != listener,
            decreases n - i,
        {
            if self.queued_events[i].listener == listener {
                let q = self.queued_events.remove(i);
                proof {
                    assert(q0[i as int].0 == listener);
                    assert(queue_index(q0, listener) == i);
                    assert(self@.queued =~= q0.remove(i as int));
                }
                return q.events;
            }
            i = i + 1;
        }
        Vec::new()
    }

    /// Hands out the events queued for `listener` and leaves it an empty queue; a
    /// listener without a queue gets one, and nothing is handed out.
    pub fn take_queued_events(&mut self, listener: u64) -> (r: Vec<UIEvent>)
        ensures
            has_queue(old(self)@.queued, listener) ==> {
                let i = queue_index(old(self)@.queued, listener);
                &&& events_view(r@) == old(self)@.queued[i].1
                &&& final(self)@ == (GUIView {
                    queued: old(self)@.queued.update(i, (listener, Seq::empty())),
                    ..old(self)@
                })
            },
            !has_queue(old(self)@.queued, listener) ==> {
                &&& r@.len() == 0
                &&& final(self)@ == (GUIView {
                    queued: old(self)@.queued.push((listener, Seq::empty())),
                    ..old(self)@
                })
            },
    {
        let ghost q0 = self@.queued;
        let n = self.queued_events.len();
        let mut i: usize = 0;
        while i < n
            invariant
                n == q0.len(),
                n == self.queued_events@.len(),
                i <= n,
                self@ == old(self)@,
                q0 == old(self)@.queued,
                forall|j: int| 0 <= j < i ==> (#[trigger] self.queued_events@[j]).listener != listener,
            decreases n - i,
        {
            if self.queued_events[i].listener == listener {
                let q = self.queued_events.remove(i);
                self.queued_events.insert(i, EventQueue { listener, events: Vec::new() });
                proof {
                    assert(q0[i as int].0 == listener);
                    assert(queue_index(q0, listener) == i);
                    assert(events_view(Seq::<UIEvent>::empty()) =~= Seq::<UIEventView>::empty());
                    assert(self@.queued =~= q0.update(i as int, (listener, Seq::empty())));
                }
                return q.events;
            }
            i = i + 1;
        }
        self.queued_events.push(EventQueue { listener, events: Vec::new() });
        proof {
            assert(events_view(Seq::<UIEvent>::empty()) =~= Seq::<UIEventView>::empty());
            assert(self@.queued =~= q0.push((listener, Seq::empty())));
        }
        Vec::new()
    }

    /// The modifier keys held.
    pub fn active_modifiers(&self) -> (m: &Modifiers)
        ensures
            *m == self@.modifiers,
    {
        &self.active_modifiers
    }

    /// The mouse button held.
    pub fn active_mouse_button(&self) -> (b: Option<MouseButton>)
        ensures
            b == self@.mouse_button,
    {
        self.active_mouse_button
    }

    /// The widget that has focus.
    pub fn focused_widget(&self) -> (w: Option<Wid>)
        ensures
            w == self@.focused,
    {
        self.focused_widget
    }

    /// The widget the mouse is over.
    pub fn moused_over_widget(&self) -> (w: Option<Wid>)
        ensures
            w == self@.moused_over,
    {
        self.moused_over_widget
    }

    /// Forgets the events recorded for every widget.
    pub fn reset_events(&mut self)
        ensures
            final(self)@ == (GUIView {
                events_by_widget: Map::<usize, Seq<UIEventView>>::empty(),
                ..old(self)@
            }),
    {
        self.events_by_widget.clear();
        assert(self@.events_by_widget =~= Map::<usize, Seq<UIEventView>>::empty());
    }

    /// The events recorded for `widget` since the last reset.
    pub fn events_for(&self, widget: &Widget) -> (r: &Vec<UIEvent>)
        ensures
            self@.events_by_widget.contains_key(widget@.id.0) ==> events_view(r@)
                == self@.events_by_widget[widget@.id.0],
            !self@.events_by_widget.contains_key(widget@.id.0) ==> r@.len() == 0,
    {
        proof { use_type_invariant(&self.empty_vec); }
        match self.events_by_widget.get(&widget.id.0) {
            Some(v) => v,
            None => &self.empty_vec.events,
        }
    }

    /// The state of widget `wid`; a widget that is not registered has none.
    pub fn widget_state(&self, wid: Wid) -> (r: WidgetState)
        ensures
            self@.nodes.contains_key(wid.0) ==> r@ == self@.nodes[wid.0].state,
            !self@.nodes.contains_key(wid.0) ==> r@ == WidgetStateView::NoState,
    {
        match self.widget_reifications.get(&wid.0) {
            Some(r) => r.widget_state.duplicate(),
            None => WidgetState::NoState,
        }
    }

    /// Brings the modifier keys held up to date with event `e`.
    pub fn update_key_modifiers(&mut self, e: &UIEvent)
        ensures
            final(self)@ == (GUIView { modifiers: modifiers_after(old(self)@.modifiers, e@), ..old(self)@ }),
    {
        match e {
            UIEvent::KeyPress { key } => match key {
                Key::LCtrl | Key::RCtrl => self.active_modifiers.ctrl = true,
                Key::LShift | Key::RShift => self.active_modifiers.shift = true,
                Key::LAlt | Key::RAlt => self.active_modifiers.alt = true,
                _ => {},
            },
            UIEvent::KeyRelease { key } => match key {
                Key::LCtrl | Key::RCtrl => self.active_modifiers.ctrl = false,
                Key::LShift | Key::RShift => self.active_modifiers.shift = false,
                Key::LAlt | Key::RAlt => self.active_modifiers.alt = false,
                _ => {},
            },
            _ => {},
        }
    }

    /// Brings the mouse button held up to date with event `e`.
    pub fn update_mouse_state(&mut self, e: &UIEvent)
        ensures
            final(self)@ == (GUIView { mouse_button: mouse_button_after(old(self)@.mouse_button, e@), ..old(self)@ }),
    {
        match e {
            UIEvent::MousePress { button } => self.active_mouse_button = Some(*button),
            UIEvent::MouseRelease { .. } => self.active_mouse_button = None,
            _ => {},
        }
    }

    /// The widget `e` goes to, given `moused`, the innermost widget under the mouse.
    pub fn widget_to_route_to(&self, e: &UIEvent, moused: Option<Wid>) -> (r: Option<Wid>)
        ensures
            r == route_for(e@, self@.focused, moused),
    {
        match e {
            UIEvent::Text { .. } => self.focused_widget,
            UIEvent::KeyPress { .. } => self.focused_widget,
            UIEvent::KeyRelease { .. } => self.focused_widget,
            UIEvent::MouseEntered { to_widget, .. } => Some(*to_widget),
            UIEvent::MouseExited { from_widget, .. } => Some(*from_widget),
            UIEvent::WidgetEvent { originating_widget, .. } => Some(*originating_widget),
            UIEvent::CustomEvent { originating_widget, .. } => Some(*originating_widget),
            _ => moused,
        }
    }

    /// The first part of handling event `e`: the mouse button and the modifier keys
    /// held are brought up to date, and the widget the event goes to is returned,
    /// given `moused`, the innermost widget under the mouse.
    pub fn begin_ui_event(&mut self, e: &UIEvent, moused: Option<Wid>) -> (r: Option<Wid>)
        ensures
            final(self)@ == (GUIView {
                mouse_button: mouse_button_after(old(self)@.mouse_button, e@),
                modifiers: modifiers_after(old(self)@.modifiers, e@),
                ..old(self)@
            }),
            r == route_for(e@, old(self)@.focused, moused),
    {
        self.update_mouse_state(e);
        self.update_key_modifiers(e);
        self.widget_to_route_to(e, moused)
    }

    /// What the tree does for itself when the mouse moves onto `route_to`: a hover in
    /// progress ends, and entering and leaving widgets is announced to every listener.
    pub fn track_pointer(&mut self, e: &UIEvent, route_to: Option<Wid>)
        ensures
            !moves_pointer(e@) ==> final(self)@ == old(self)@,
            moves_pointer(e@) ==> final(self)@ == (GUIView {
                queued: pointer_move_queues(
                    old(self)@.queued,
                    old(self)@.hover_widget,
                    old(self)@.moused_over,
                    route_to,
                ),
                hover_widget: None,
                moused_over: route_to,
                ..old(self)@
            }),
    {
        let moves = match e {
            UIEvent::MousePosition => true,
            UIEvent::MouseDrag { .. } => true,
            _ => false,
        };
        if moves {
            if let Some(h) = self.hover_widget {
                self.enqueue_event(&UIEvent::HoverEnd { over_widget: h });
            }
            self.hover_widget = None;
            if route_to != self.moused_over_widget {
                let cur = self.moused_over_widget;
                if let Some(prev) = cur {
                    self.enqueue_event(&UIEvent::MouseExited { from_widget: prev, to_widget: route_to });
                }
                if let Some(n) = route_to {
                    self.enqueue_event(&UIEvent::MouseEntered { from_widget: cur, to_widget: n });
                }
                self.moused_over_widget = route_to;
            }
        }
    }

    /// Starts a hover over the widget under the mouse, if no hover is in progress;
    /// returns the event announcing it when there is such a widget.
    pub fn begin_hover(&mut self) -> (r: Option<UIEvent>)
        ensures
            old(self)@.hover_widget is Some ==> final(self)@ == old(self)@ && r is None,
            old(self)@.hover_widget is None ==> {
                &&& final(self)@ == (GUIView { hover_widget: old(self)@.moused_over, ..old(self)@ })
                &&& match old(self)@.moused_over {
                    Some(h) => r matches Some(ev) && ev@ == (UIEventView::HoverStart { over_widget: h }),
                    None => r is None,
                }
            },
    {
        if self.hover_widget.is_none() {
            self.hover_widget = self.moused_over_widget;
            match self.hover_widget {
                Some(h) => Some(UIEvent::HoverStart { over_widget: h }),
                None => None,
            }
        } else {
            None
        }
    }

    /// Clears every layout mark, once a new layout has been made.
    pub fn clear_modified(&mut self)
        ensures
            final(self)@ == (GUIView { modified: Set::<usize>::empty(), ..old(self)@ }),
    {
        self.modified_set.clear();
    }

    fn callbacks_of(&self, wid: Wid) -> (r: Vec<u32>)
        requires
            self@.nodes.contains_key(wid.0),
        ensures
            r@ == callback_ids(self@.nodes[wid.0].widget.callbacks),
    {
        let reif = self.widget_reifications.get(&wid.0).unwrap();
        let cs = &reif.widget.callbacks;
        let mut r: Vec<u32> = Vec::new();
        let mut i: usize = 0;
        while i < cs.len()
            invariant
                i <= cs@.len(),
                cs@ == self@.nodes[wid.0].widget.callbacks,
                r@ == callback_ids(cs@.subrange(0, i as int)),
            decreases cs.len() - i,
        {
            r.push(cs[i].id());
            i = i + 1;
            assert(callback_ids(cs@.subrange(0, i as int)) =~= callback_ids(cs@.subrange(0, i - 1)).push(
                cs@[i - 1].spec_id(),
            ));
        }
        r
    }

    /// Widget `wid` handles `e`: a mouse release moves focus to it or away, and the
    /// event is consumed, or ends here for want of a parent, or goes on to the parent,
    /// a widget event re-tagged as passed on by `wid`.
    pub fn bubble_step(&mut self, wid: Wid, e: &UIEvent) -> (r: BubbleStep)
        requires
            old(self)@.nodes.contains_key(wid.0),
        ensures
            final(self)@ == (GUIView {
                focused: focus_after(old(self)@.focused, old(self)@.nodes, wid, e@),
                ..old(self)@
            }),
            ({
                let n = old(self)@.nodes[wid.0].widget;
                if consumes(n.event_consumption, *e) {
                    r == BubbleStep::Handled(true)
                } else {
                    match n.parent_id {
                        None => r == BubbleStep::Handled(false),
                        Some(p) => r matches BubbleStep::PassTo(q, ev) && q == p && ev@ == retagged(e@, wid)
                            && event_kind_index(ev) == event_kind_index(*e) && (ev is KeyPress ==> ev == *e)
                            && (ev is KeyRelease ==> ev == *e),
                    }
                }
            }),
    {
        let reif = self.widget_reifications.get(&wid.0).unwrap();
        let consumed = reif.widget.event_consumption.consumes_event(e);
        let parent = reif.widget.parent_id;
        let accepts = reif.widget.accepts_focus;
        if let UIEvent::MouseRelease { .. } = e {
            if accepts {
                self.focused_widget = Some(wid);
            } else {
                self.focused_widget = None;
            }
        }
        if consumed {
            BubbleStep::Handled(true)
        } else {
            match parent {
                None => BubbleStep::Handled(false),
                Some(p) => BubbleStep::PassTo(p, e.clone_with_most_recently_from_widget(wid)),
            }
        }
    }

    /// Walks event `e` up the tree from `wid` for a listener other than the tree
    /// itself, moving focus as each widget reached directs; returns whether a widget
    /// consumed the event and, in order, each widget reached with the event as it got
    /// it and the callbacks to run on it.
    pub fn handle_event_widget(&mut self, wid: Wid, e: &UIEvent) -> (r: (bool, Vec<Visit>))
        requires
            can_bubble(old(self)@.nodes, wid, *e),
        ensures
            ({
                let nodes = old(self)@.nodes;
                let path = bubble_path(nodes, wid, *e);
                &&& final(self)@ == (GUIView {
                    focused: focus_after(old(self)@.focused, nodes, path.last(), e@),
                    ..old(self)@
                })
                &&& r.0 == bubble_consumed(nodes, wid, *e)
                &&& r.1@.len() == path.len()
                &&& forall|k: int|
                    0 <= k < path.len() ==> {
                        &&& (#[trigger] r.1@[k]).wid == path[k]
                        &&& r.1@[k].event@ == event_at(e@, path, k)
                        &&& r.1@[k].callbacks@ == callback_ids(nodes[path[k].0].widget.callbacks)
                    }
            }),
    {
        let ghost nodes = self@.nodes;
        let ghost full = bubble(nodes, wid, *e, nodes.dom().len()).unwrap();
        let ghost mut fuel: nat = nodes.dom().len();
        let mut cur = wid;
        let mut ev = e.duplicate();
        let mut visits: Vec<Visit> = Vec::new();
        loop
            invariant
                nodes == old(self)@.nodes,
                self@ == (GUIView { focused: self@.focused, ..old(self)@ }),
                full == bubble(nodes, wid, *e, nodes.dom().len()).unwrap(),
                bubble(nodes, cur, *e, fuel) is Some,
                full.0 =~= visits@.map_values(|v: Visit| v.wid) + bubble(nodes, cur, *e, fuel).unwrap().0,
                full.1 == bubble(nodes, cur, *e, fuel).unwrap().1,
                ev@ == event_at(e@, full.0, visits@.len() as int),
                event_kind_index(ev) == event_kind_index(*e),
                ev is KeyPress ==> ev == *e,
                ev is KeyRelease ==> ev == *e,
                visits@.len() == 0 ==> self@.focused == old(self)@.focused,
                visits@.len() > 0 ==> self@.focused == focus_after(
                    old(self)@.focused,
                    nodes,
                    full.0[visits@.len() - 1],
                    e@,
                ),
                forall|k: int|
                    0 <= k < visits@.len() ==> {
                        &&& (#[trigger] visits@[k]).wid == full.0[k]
                        &&& visits@[k].event@ == event_at(e@, full.0, k)
                        &&& visits@[k].callbacks@ == callback_ids(nodes[full.0[k].0].widget.callbacks)
                    },
            decreases fuel,
        {
            let ghost k = visits@.len() as int;
            let ghost rest = bubble(nodes, cur, *e, fuel).unwrap();
            proof {
                lemma_consumes_same_kind(nodes[cur.0].widget.event_consumption, ev, *e);
            }
            let cbs = self.callbacks_of(cur);
            let copy = ev.duplicate();
            visits.push(Visit { wid: cur, event: copy, callbacks: cbs });
            let step = self.bubble_step(cur, &ev);
            match step {
                BubbleStep::Handled(b) => {
                    return (b, visits);
                },
                BubbleStep::PassTo(p, nev) => {
                    proof {
                        assert(visits@.map_values(|v: Visit| v.wid) =~= visits@.drop_last().map_values(
                            |v: Visit| v.wid,
                        ).push(cur));
                        fuel = (fuel - 1) as nat;
                    }
                    cur = p;
                    ev = nev;
                },
            }
        }
    }

    /// Records `e` among the events of widget `wid`; returns whether `wid` is
    /// registered, as handling it further needs.
    pub fn record_event(&mut self, wid: Wid, e: &UIEvent) -> (r: bool)
        ensures
            final(self)@ == (GUIView {
                events_by_widget: with_recorded(old(self)@.events_by_widget, wid.0, e@),
                ..old(self)@
            }),
            r == old(self)@.nodes.contains_key(wid.0),
    {
        let copy = e.duplicate();
        let existing = self.events_by_widget.remove(&wid.0);
        match existing {
            Some(mut v) => {
                v.push(copy);
                self.events_by_widget.insert(wid.0, v);
            },
            None => {
                let mut v: Vec<UIEvent> = Vec::new();
                v.push(copy);
                self.events_by_widget.insert(wid.0, v);
            },
        }
        proof {
            let m0 = old(self)@.events_by_widget;
            if m0.contains_key(wid.0) {
                assert(events_view(self.events_by_widget@[wid.0]@) =~= m0[wid.0].push(e@));
            } else {
                assert(events_view(self.events_by_widget@[wid.0]@) =~= seq![e@]);
            }
            assert(self@.events_by_widget =~= with_recorded(m0, wid.0, e@));
        }
        self.widget_reifications.contains_key(&wid.0)
    }

    /// A context for the callbacks of widget `wid`, starting from its current state
    /// with no events raised.
    pub fn context_for(&self, wid: Wid) -> (c: WidgetContext)
        requires
            self@.nodes.contains_key(wid.0),
        ensures
            c.widget_id == wid,
            c.widget_state@ == self@.nodes[wid.0].state,
            c.triggered_events@.len() == 0,
    {
        let reif = self.widget_reifications.get(&wid.0).unwrap();
        WidgetContext {
            widget_id: wid,
            widget_state: reif.widget_state.duplicate(),
            triggered_events: Vec::new(),
        }
    }

    /// Takes in what the callbacks of a widget decided: a changed state is stored
    /// and announced to every listener, then the events the callbacks raised are
    /// sent to every listener in order. Returns whether the state changed, in which
    /// case the widget needs a new layout.
    pub fn apply_widget_context(&mut self, ctx: WidgetContext) -> (changed: bool)
        requires
            old(self)@.nodes.contains_key(ctx.widget_id.0),
        ensures
            children_listed_once(final(self)@.nodes),
            ({
                let w = ctx.widget_id.0;
                let n = old(self)@.nodes[w];
                let raised = events_view(ctx.triggered_events@);
                &&& changed == (n.state != ctx.widget_state@)
                &&& final(self)@ == (GUIView {
                    nodes: if changed {
                        old(self)@.nodes.insert(w, NodeView { state: ctx.widget_state@, ..n })
                    } else {
                        old(self)@.nodes
                    },
                    queued: if changed {
                        queues_with_all(
                            old(self)@.queued,
                            seq![UIEventView::WidgetStateChanged { old_state: n.state, new_state: ctx.widget_state@ }]
                                + raised,
                        )
                    } else {
                        queues_with_all(old(self)@.queued, raised)
                    },
                    ..old(self)@
                })
            }),
    {
        proof {
            use_type_invariant(&self.widget_reifications);
            assert(children_listed_once(self@.nodes));
        }
        let w = ctx.widget_id.0;
        let ghost q0 = self@.queued;
        let ghost raised = events_view(ctx.triggered_events@);
        let mut state = self.widget_reifications.remove(&w).unwrap();
        let changed = !state.widget_state.same_as(&ctx.widget_state);
        let ghost start: Seq<UIEventView> = if changed {
            seq![UIEventView::WidgetStateChanged { old_state: state.widget_state@, new_state: ctx.widget_state@ }]
        } else {
            Seq::empty()
        };
        if changed {
            let announce = UIEvent::WidgetStateChanged {
                old_state: state.widget_state.duplicate(),
                new_state: ctx.widget_state.duplicate(),
            };
            self.enqueue_event(&announce);
            state.widget_state = ctx.widget_state.duplicate();
            assert(queues_with_all(q0, start) == queues_with(queues_with_all(q0, start.drop_last()), start.last(), true));
        }
        let ghost before_insert = self@.nodes;
        self.widget_reifications.insert(w, state);
        let ghost nodes1 = self@.nodes;
        assert(nodes1 =~= before_insert.insert(w, state@));
        proof {
            let m0 = old(self)@.nodes;
            if changed {
                assert(nodes1 =~= m0.insert(w, NodeView { state: ctx.widget_state@, ..m0[w] }));
            } else {
                assert(nodes1 =~= m0);
            }
        }
        let evs = ctx.triggered_events;
        let mut i: usize = 0;
        while i < evs.len()
            invariant
                i <= evs@.len(),
                raised == events_view(evs@),
                self@ == (GUIView {
                    nodes: nodes1,
                    queued: queues_with_all(q0, start + raised.subrange(0, i as int)),
                    ..old(self)@
                }),
            decreases evs.len() - i,
        {
            self.enqueue_event(&evs[i]);
            i = i + 1;
            proof {
                let all = start + raised.subrange(0, i as int);
                assert(all.drop_last() =~= start + raised.subrange(0, i - 1));
            }
        }
        assert(raised.subrange(0, raised.len() as int) =~= raised);
        changed
    }

    /// Replaces the stored widget `wid` by `altered`, keeping its children and state.
    pub fn store_widget(&mut self, wid: Wid, altered: Widget)
        requires
            old(self)@.nodes.contains_key(wid.0),
        ensures
            children_listed_once(final(self)@.nodes),
            final(self)@ == (GUIView {
                nodes: old(self)@.nodes.insert(
                    wid.0,
                    NodeView { widget: altered@, ..old(self)@.nodes[wid.0] },
                ),
                ..old(self)@
            }),
    {
        proof {
            use_type_invariant(&self.widget_reifications);
            assert(children_listed_once(self@.nodes));
        }
        let mut state = self.widget_reifications.remove(&wid.0).unwrap();
        state.widget = altered;
        self.widget_reifications.insert(wid.0, state);
        assert(self@.nodes =~= old(self)@.nodes.insert(
            wid.0,
            NodeView { widget: altered@, ..old(self)@.nodes[wid.0] },
        ));
    }

    /// Replaces the stored widget `wid` by `altered`, keeping its children and state,
    /// and marks it as needing a new layout.
    pub fn alter_widget(&mut self, wid: Wid, altered: Widget)
        requires
            old(self)@.nodes.contains_key(wid.0),
            can_mark(
                old(self)@.nodes.insert(wid.0, NodeView { widget: altered@, ..old(self)@.nodes[wid.0] }),
                wid.0,
            ),
        ensures
            children_listed_once(final(self)@.nodes),
            ({
                let nodes = old(self)@.nodes.insert(
                    wid.0,
                    NodeView { widget: altered@, ..old(self)@.nodes[wid.0] },
                );
                final(self)@ == (GUIView {
                    nodes,
                    modified: old(self)@.modified.union(marked_by(nodes, wid.0)),
                    ..old(self)@
                })
            }),
    {
        proof {
            use_type_invariant(&self.widget_reifications);
            assert(children_listed_once(self@.nodes));
        }
        self.store_widget(wid, altered);
        self.mark_widget_modified(wid);
    }

    /// The number of ancestors of widget `wid`.
    pub fn depth_of_widget(&self, wid: Wid) -> (d: usize)
        requires
            depth(self@.nodes, wid, self@.nodes.dom().len()) is Some,
        ensures
            d == depth(self@.nodes, wid, self@.nodes.dom().len()).unwrap(),
    {
        let ghost nodes = self@.nodes;
        let ghost total = depth(nodes, wid, nodes.dom().len()).unwrap();
        let ghost mut fuel: nat = nodes.dom().len();
        let n = self.widget_reifications.len();
        assert(nodes.dom() =~= self.widget_reifications@.dom());
        let mut count: usize = 0;
        let mut cur = wid;
        loop
            invariant
                nodes == self@.nodes,
                depth(nodes, cur, fuel) is Some,
                total == depth(nodes, wid, nodes.dom().len()).unwrap(),
                total == count + depth(nodes, cur, fuel).unwrap(),
                count + fuel <= n,
            decreases fuel,
        {
            let reif = self.widget_reifications.get(&cur.0).unwrap();
            let parent = reif.widget.parent_id;
            match parent {
                Some(p) => {
                    proof {
                        fuel = (fuel - 1) as nat;
                    }
                    cur = p;
                    count = count + 1;
                },
                None => {
                    return count;
                },
            }
        }
    }

    /// Whether widget `wid` needs a new layout (`force`, or it is marked), and
    /// whether it is skipped altogether: when it needs none and is hidden.
    pub fn needs_update(&self, wid: Wid, force: bool) -> (r: (bool, bool))
        requires
            self@.nodes.contains_key(wid.0),
        ensures
            r.0 == (force || self@.modified.contains(wid.0)),
            r.1 == (!r.0 && !self@.nodes[wid.0].widget.showing),
    {
        let should = force || self.modified_set.contains(&wid.0);
        let showing = self.widget_reifications.get(&wid.0).unwrap().widget.showing;
        (should, !should && !showing)
    }

    /// Whether widget `wid` is registered.
    pub fn contains(&self, wid: Wid) -> (r: bool)
        ensures
            r == self@.nodes.contains_key(wid.0),
    {
        self.widget_reifications.contains_key(&wid.0)
    }

    /// The stored widget `wid`.
    pub fn widget(&self, wid: Wid) -> (w: &Widget)
        requires
            self@.nodes.contains_key(wid.0),
        ensures
            w@ == self@.nodes[wid.0].widget,
    {
        &self.widget_reifications.get(&wid.0).unwrap().widget
    }
}

impl Widget {
    /// Gives the widget an identifier from `gui` if it has none, applies it, and
    /// drops its state override, which the tree has taken.
    pub fn reapply(&mut self, gui: &mut GUI)
        requires
            can_reapply(old(gui)@, old(self)@),
        ensures
            (final(gui)@, final(self)@) == reapply_result(old(gui)@, old(self)@),
            final(self)@.id.0 != 0,
            final(gui)@.nodes.contains_key(final(self)@.id.0),
            final(self)@.parent_id matches Some(p) ==> final(gui)@.nodes[p.0].children.contains(final(self)@.id)
                && final(gui)@.nodes[p.0].children.no_duplicates(),
            final(self)@.parent_id is None ==> final(gui)@.top_level.contains(final(self)@.id.0),
            children_listed_once(final(gui)@.nodes),
    {
        if !self.has_id() {
            let wid = gui.new_id();
            self.set_id(wid);
        }
        gui.apply_widget(self);
        self.state_override = None;
    }

    /// The widget, given an identifier if it had none and applied to `gui`.
    pub fn apply(self, gui: &mut GUI) -> (r: Widget)
        requires
            can_reapply(old(gui)@, self@),
        ensures
            (final(gui)@, r@) == reapply_result(old(gui)@, self@),
    {
        let mut w = self;
        w.reapply(gui);
        w
    }
}

/// Applying a widget registers it: afterwards the tree holds the widget as applied,
/// or, when it replaced a different stored widget, as applied less its state override.
pub proof fn lemma_apply_registers(g: GUIView, w: WidgetView)
    ensures
        apply_result(g, w).nodes.contains_key(w.id.0),
        apply_result(g, w).nodes[w.id.0].widget == w || apply_result(g, w).nodes[w.id.0].widget
            == (WidgetView { state_override: None, ..w }),
{
}

/// A changed widget applied with a state override over a registered one takes the
/// override as its state, and keeps its children.
pub proof fn lemma_apply_takes_state_override(g: GUIView, w: WidgetView, s: WidgetStateView)
    requires
        g.nodes.contains_key(w.id.0),
        apply_changes(g.nodes, w),
        w.state_override == Some(s),
    ensures
        apply_result(g, w).nodes[w.id.0].state == s,
        apply_result(g, w).nodes[w.id.0].children == with_child_registered(g.nodes, w)[w.id.0].children,
{
}

/// Applying a widget with a parent lists it among the parent's children.
pub proof fn lemma_apply_lists_child(g: GUIView, w: WidgetView, p: Wid)
    requires
        w.parent_id == Some(p),
        g.nodes.contains_key(p.0),
        p != w.id,
    ensures
        apply_result(g, w).nodes[p.0].children.contains(w.id),
{
    let n1 = with_child_registered(g.nodes, w);
    if !g.nodes[p.0].children.contains(w.id) {
        assert(n1[p.0].children[n1[p.0].children.len() - 1] == w.id);
    }
}

/// Whether no registered widget lists a child twice.
pub open spec fn children_listed_once(nodes: NodeMap) -> bool {
    forall|k: usize| #[trigger] nodes.contains_key(k) ==> nodes[k].children.no_duplicates()
}

/// Applying a widget, however many times, registers it and lists it exactly once:
/// among its parent's children when it has a parent, else among the top-level
/// widgets. Applying keeps every list of children free of repeats, so listing the
/// widget once more never lists it twice.
pub proof fn lemma_apply_lists_once(g: GUIView, w: WidgetView)
    requires
        can_apply(g, w),
        children_listed_once(g.nodes),
    ensures
        apply_result(g, w).nodes.contains_key(w.id.0),
        children_listed_once(apply_result(g, w).nodes),
        w.parent_id matches Some(p) ==> apply_result(g, w).nodes[p.0].children.contains(w.id)
            && apply_result(g, w).nodes[p.0].children.no_duplicates(),
        w.parent_id is None ==> apply_result(g, w).top_level.contains(w.id.0),
{
    let n1 = with_child_registered(g.nodes, w);
    if let Some(p) = w.parent_id {
        let cs = g.nodes[p.0].children;
        if !cs.contains(w.id) {
            let pushed = cs.push(w.id);
            assert(pushed[pushed.len() - 1] == w.id);
            assert forall|a: int, b: int| 0 <= a < b < pushed.len() implies pushed[a] != pushed[b] by {
                if b == pushed.len() - 1 {
                    assert(cs[a] == pushed[a]);
                } else {
                    assert(cs[a] == pushed[a] && cs[b] == pushed[b]);
                }
            }
            assert(n1[p.0].children == pushed);
        }
        assert(n1[p.0].children.contains(w.id));
    }
    assert(children_listed_once(n1));
    let r = applied_nodes(g.nodes, w);
    assert forall|k: usize| #[trigger] r.contains_key(k) implies r[k].children.no_duplicates() by {
        if k == w.id.0 {
            if n1.contains_key(k) {
                assert(n1[k].children.no_duplicates());
            } else {
                assert(r[k].children =~= Seq::<Wid>::empty());
            }
        } else {
            assert(n1.contains_key(k));
        }
    }
    if let Some(p) = w.parent_id {
        assert(n1.contains_key(p.0));
        if p.0 == w.id.0 && n1.contains_key(w.id.0) {
            assert(r[p.0].children == n1[p.0].children);
        }
    }
}

/// Removed widgets are forgotten: none is registered, top-level, marked for layout,
/// focused, or has recorded events; every other widget keeps its registration.
pub proof fn lemma_removed_forgotten(g: GUIView, ids: Set<usize>, id: usize)
    ensures
        ids.contains(id) ==> {
            let a = after_removing(g, ids);
            &&& !a.nodes.contains_key(id)
            &&& !a.top_level.contains(id)
            &&& !a.modified.contains(id)
            &&& !a.events_by_widget.contains_key(id)
            &&& !(a.focused matches Some(f) && f.0 == id)
        },
        !ids.contains(id) ==> {
            let a = after_removing(g, ids);
            &&& a.nodes.contains_key(id) == g.nodes.contains_key(id)
            &&& g.nodes.contains_key(id) ==> a.nodes[id] == g.nodes[id]
            &&& a.top_level.contains(id) == g.top_level.contains(id)
        },
{
}

/// Marking a widget for a new layout marks it.
pub proof fn lemma_mark_includes_self(nodes: NodeMap, w: usize)
    requires
        can_mark(nodes, w),
    ensures
        marked_by(nodes, w).contains(w),
{
    let fuel = nodes.dom().len();
    let n = nodes[w];
    if view_dependent_on_children(n.widget) && n.widget.parent_id is Some {
        let p = n.widget.parent_id.unwrap().0;
    }
}

/// Pressing a modifier key turns its modifier on and releasing it turns it off,
/// leaving the other modifiers as they were; other keys change no modifier.
pub proof fn lemma_modifier_press_release(m: Modifiers, k: Key)
    ensures
        ({
            let pressed = modifiers_after(m, UIEventView::KeyPress { key: k });
            let released = modifiers_after(pressed, UIEventView::KeyRelease { key: k });
            &&& (k == Key::LCtrl || k == Key::RCtrl) ==> pressed == (Modifiers { ctrl: true, ..m })
                && released == (Modifiers { ctrl: false, ..m })
            &&& (k == Key::LShift || k == Key::RShift) ==> pressed == (Modifiers { shift: true, ..m })
                && released == (Modifiers { shift: false, ..m })
            &&& (k == Key::LAlt || k == Key::RAlt) ==> pressed == (Modifiers { alt: true, ..m })
                && released == (Modifiers { alt: false, ..m })
            &&& k is Other ==> pressed == m && released == m
        }),
{
}

/// An event sent to every listener ends up last in each listener's queue, and the
/// queues stay where they were.
pub proof fn lemma_enqueue_appends(q: Queues, e: UIEventView, l: u64)
    requires
        has_queue(q, l),
    ensures
        has_queue(queues_with(q, e, true), l),
        queue_index(queues_with(q, e, true), l) == queue_index(q, l),
        queues_with(q, e, true)[queue_index(q, l)].1 == q[queue_index(q, l)].1.push(e),
{
    let q2 = queues_with(q, e, true);
    let w = choose|j: int| 0 <= j < q.len() && q[j].0 == l;
    lemma_first_queue(q, l, w);
    let i = queue_index(q, l);
    assert forall|k: int| 0 <= k < q.len() implies #[trigger] q2[k] == (q[k].0, q[k].1.push(e)) by {}
    lemma_first_queue(q2, l, i);
    assert(queue_index(q2, l) == i);
}

proof fn lemma_first_queue(q: Queues, l: u64, w: int)
    requires
        0 <= w < q.len(),
        q[w].0 == l,
    ensures
        ({
            let i = queue_index(q, l);
            &&& 0 <= i < q.len()
            &&& q[i].0 == l
            &&& forall|j: int| 0 <= j < i ==> q[j].0 != l
        }),
    decreases w,
{
    if exists|j: int| 0 <= j < w && q[j].0 == l {
        let j = choose|j: int| 0 <= j < w && q[j].0 == l;
        lemma_first_queue(q, l, j);
    }
}

/// An event sent to every listener but the tree reaches no queue of the tree.
pub proof fn lemma_excepting_self_skips_tree(q: Queues, e: UIEventView, i: int)
    requires
        0 <= i < q.len(),
        q[i].0 == SELF_LISTENER,
    ensures
        queues_with(q, e, false)[i] == q[i],
{
}

/// Recording an event for a widget appends it to that widget's events and leaves
/// every other widget's events as they were.
pub proof fn lemma_record_appends(m: Map<usize, Seq<UIEventView>>, w: usize, e: UIEventView, other: usize)
    ensures
        with_recorded(m, w, e)[w] == (if m.contains_key(w) { m[w] } else { Seq::empty() }).push(e),
        other != w ==> with_recorded(m, w, e).contains_key(other) == m.contains_key(other),
        other != w && m.contains_key(other) ==> with_recorded(m, w, e)[other] == m[other],
{
}

/// A widget given an identifier by reapplying has one, a fresh one from the counter
/// when it had none, and is registered under it afterwards.
pub proof fn lemma_reapply_identifies(g: GUIView, w: WidgetView)
    requires
        can_reapply(g, w),
    ensures
        reapply_result(g, w).1.id.0 != 0,
        w.id.0 == 0 ==> reapply_result(g, w).1.id.0 == g.last_wid + 1,
        w.id.0 != 0 ==> reapply_result(g, w).1.id == w.id,
        reapply_result(g, w).0.nodes.contains_key(reapply_result(g, w).1.id.0),
{
    let (g1, w1) = with_identifier(g, w);
    lemma_apply_registers(g1, w1);
}

/// An event walks up from the widget it was sent to, each widget passing it to its
/// parent, and stops at the first widget that consumes it or has no parent; it is
/// consumed exactly when that last widget consumes it.
pub proof fn lemma_bubble_stops_at_first_consumer(nodes: NodeMap, w: Wid, e: UIEvent, fuel: nat)
    requires
        bubble(nodes, w, e, fuel) is Some,
    ensures
        ({
            let (path, consumed) = bubble(nodes, w, e, fuel).unwrap();
            &&& path.len() > 0
            &&& path[0] == w
            &&& forall|i: int| 0 <= i < path.len() ==> nodes.contains_key(#[trigger] path[i].0)
            &&& forall|i: int|
                0 <= i < path.len() - 1 ==> !consumes(nodes[(#[trigger] path[i]).0].widget.event_consumption, e)
                    && nodes[path[i].0].widget.parent_id == Some(path[i + 1])
            &&& consumed == consumes(nodes[path.last().0].widget.event_consumption, e)
            &&& !consumed ==> nodes[path.last().0].widget.parent_id is None
        }),
    decreases fuel,
{
    let n = nodes[w.0].widget;
    if !consumes(n.event_consumption, e) {
        if let Some(p) = n.parent_id {
            lemma_bubble_stops_at_first_consumer(nodes, p, e, (fuel - 1) as nat);
            let rest = bubble(nodes, p, e, (fuel - 1) as nat).unwrap().0;
            let path = seq![w] + rest;
            assert forall|i: int| 0 <= i < path.len() implies nodes.contains_key(#[trigger] path[i].0) by {}
            assert forall|i: int| 0 <= i < path.len() - 1 implies !consumes(
                nodes[(#[trigger] path[i]).0].widget.event_consumption,
                e,
            ) && nodes[path[i].0].widget.parent_id == Some(path[i + 1]) by {}
        }
    }
}

/// The tree's bookkeeping agrees with what is registered: the focused widget and
/// every top-level widget are registered.
pub open spec fn tree_consistent(g: GUIView) -> bool {
    &&& g.focused matches Some(f) ==> g.nodes.contains_key(f.0)
    &&& forall|w: usize| #[trigger] g.top_level.contains(w) ==> g.nodes.contains_key(w)
}

/// Applying a widget keeps every registration and adds the widget's own.
pub proof fn lemma_apply_keeps_registrations(g: GUIView, w: WidgetView, k: usize)
    requires
        can_apply(g, w),
    ensures
        apply_result(g, w).nodes.contains_key(k) == (g.nodes.contains_key(k) || k == w.id.0),
{
}

/// Every operation on the tree keeps its bookkeeping consistent with what is
/// registered: applying a widget, removing widgets, a widget handling an event
/// (which may move focus to it), replacing a stored widget or its state, and
/// starting a hover or tracking the pointer.
pub proof fn lemma_operations_keep_consistency(
    g: GUIView,
    w: WidgetView,
    ids: Set<usize>,
    at: Wid,
    e: UIEventView,
    n: NodeView,
)
    requires
        tree_consistent(g),
    ensures
        can_apply(g, w) ==> tree_consistent(apply_result(g, w)),
        tree_consistent(after_removing(g, ids)),
        g.nodes.contains_key(at.0) ==> tree_consistent(
            GUIView { focused: focus_after(g.focused, g.nodes, at, e), ..g },
        ),
        g.nodes.contains_key(at.0) ==> tree_consistent(GUIView { nodes: g.nodes.insert(at.0, n), ..g }),
        tree_consistent(GUIView { hover_widget: g.moused_over, ..g }),
        tree_consistent(GUIView { modified: Set::empty(), ..g }),
{
    if can_apply(g, w) {
        let a = apply_result(g, w);
        assert forall|k: usize| #[trigger] a.top_level.contains(k) implies a.nodes.contains_key(k) by {
            lemma_apply_keeps_registrations(g, w, k);
        }
        if let Some(f) = a.focused {
            lemma_apply_keeps_registrations(g, w, f.0);
        }
    }
    let r = after_removing(g, ids);
    assert forall|k: usize| #[trigger] r.top_level.contains(k) implies r.nodes.contains_key(k) by {}
    let m = GUIView { nodes: g.nodes.insert(at.0, n), ..g };
    assert forall|k: usize| #[trigger] m.top_level.contains(k) implies m.nodes.contains_key(k) by {}
}

/// Forgetting one set of widgets and then another is forgetting both at once.
pub proof fn lemma_after_removing_twice(g: GUIView, a: Set<usize>, b: Set<usize>)
    ensures
        after_removing(after_removing(g, a), b) == after_removing(g, a.union(b)),
{
    let x = after_removing(after_removing(g, a), b);
    let y = after_removing(g, a.union(b));
    assert(x.nodes =~= y.nodes);
    assert(x.events_by_widget =~= y.events_by_widget);
    assert(x.modified =~= y.modified);
    assert(x.top_level =~= y.top_level);
}

} // verus!
