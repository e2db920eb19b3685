use vstd::prelude::*;
use crate::widgets::Wid;

verus! {

/// A mouse button, as the windowing layer names them.
#[derive(Clone, Copy, PartialEq, Eq, Structural, Debug, Hash)]
pub enum MouseButton {
    Unknown,
    Left,
    Right,
    Middle,
    X1,
    X2,
    Button6,
    Button7,
    Button8,
}

/// A keyboard key. The six modifier keys have variants of their own; every other
/// key is carried by its key code.
#[derive(Clone, Copy, PartialEq, Eq, Structural, Debug, Hash)]
pub enum Key {
    LCtrl,
    RCtrl,
    LShift,
    RShift,
    LAlt,
    RAlt,
    Other(u32),
}

/// The state a widget carries between events.
#[derive(Clone, PartialEq, Debug)]
pub enum WidgetState {
    NoState,
    Button { pressed: bool },
    Text { text: String },
    Tab { active_tab: Option<u32>, tabs: Vec<Wid>, tab_buttons: Vec<Wid> },
}

/// The mathematical value of a widget state.
pub enum WidgetStateView {
    NoState,
    Button { pressed: bool },
    Text { text: Seq<char> },
    Tab { active_tab: Option<u32>, tabs: Seq<Wid>, tab_buttons: Seq<Wid> },
}

impl View for WidgetState {
    type V = WidgetStateView;

    open spec fn view(&self) -> WidgetStateView {
        match self {
            WidgetState::NoState => WidgetStateView::NoState,
            WidgetState::Button { pressed } => WidgetStateView::Button { pressed: *pressed },
            WidgetState::Text { text } => WidgetStateView::Text { text: text@ },
            WidgetState::Tab { active_tab, tabs, tab_buttons } => WidgetStateView::Tab {
                active_tab: *active_tab,
                tabs: tabs@,
                tab_buttons: tab_buttons@,
            },
        }
    }
}

/// Whether two lists of widget identifiers are equal.
pub fn same_wids(a: &Vec<Wid>, b: &Vec<Wid>) -> (r: bool)
    ensures
        r == (a@ == b@),
{
    if a.len() != b.len() {
        return false;
    }
    let mut i: usize = 0;
    while i < a.len()
        invariant
            a.len() == b.len(),
            i <= a.len(),
            forall|j: int| 0 <= j < i ==> a@[j] == b@[j],
        decreases a.len() - i,
    {
        if a[i] != b[i] {
            return false;
        }
        i = i + 1;
    }
    assert(a@ =~= b@);
    true
}

/// Whether two strings are equal.
pub fn same_text(a: &String, b: &String) -> (r: bool)
    ensures
        r == (a@ == b@),
{
    let sa = a.as_str();
    let sb = b.as_str();
    let n = sa.unicode_len();
    if n != sb.unicode_len() {
        return false;
    }
    let mut i: usize = 0;
    while i < n
        invariant
            n == sa@.len(),
            n == sb@.len(),
            sa@ == a@,
            sb@ == b@,
            i <= n,
            forall|j: int| 0 <= j < i ==> sa@[j] == sb@[j],
        decreases n - i,
    {
        if sa.get_char(i) != sb.get_char(i) {
            return false;
        }
        i = i + 1;
    }
    assert(sa@ =~= sb@);
    true
}

impl WidgetState {
    /// Whether two widget states are equal.
    pub fn same_as(&self, other: &WidgetState) -> (r: bool)
        ensures
            r == (self@ == other@),
    {
        match (self, other) {
            (WidgetState::NoState, WidgetState::NoState) => true,
            (WidgetState::Button { pressed: p }, WidgetState::Button { pressed: q }) => *p == *q,
            (WidgetState::Text { text: t }, WidgetState::Text { text: u }) => same_text(t, u),
            (
                WidgetState::Tab { active_tab: a1, tabs: t1, tab_buttons: b1 },
                WidgetState::Tab { active_tab: a2, tabs: t2, tab_buttons: b2 },
            ) => {
                let same_active = match (a1, a2) {
                    (Some(x), Some(y)) => *x == *y,
                    (None, None) => true,
                    _ => false,
                };
                same_active && same_wids(t1, t2) && same_wids(b1, b2)
            },
            _ => false,
        }
    }

    /// A copy of this state.
    pub fn duplicate(&self) -> (r: WidgetState)
        ensures
            r@ == self@,
    {
        match self {
            WidgetState::NoState => WidgetState::NoState,
            WidgetState::Button { pressed } => WidgetState::Button { pressed: *pressed },
            WidgetState::Text { text } => WidgetState::Text { text: text.clone() },
            WidgetState::Tab { active_tab, tabs, tab_buttons } => WidgetState::Tab {
                active_tab: *active_tab,
                tabs: tabs.clone(),
                tab_buttons: tab_buttons.clone(),
            },
        }
    }
}

/// An event raised by a widget itself.
#[derive(Clone, Copy, PartialEq, Eq, Structural, Debug)]
pub enum WidgetEvent {
    ButtonClicked(Wid),
    RadioChanged { new_index: i32 },
    ListItemClicked(usize, MouseButton),
}

/// A user-interface event, with everything the widget tree reads of it. Where the
/// windowing layer also carries positions and sizes, those stay with it.
#[derive(Clone, Debug)]
pub enum UIEvent {
    MousePress { button: MouseButton },
    MouseRelease { button: MouseButton },
    MouseDrag { button: MouseButton },
    MouseMove,
    MousePosition,
    MouseEntered { from_widget: Option<Wid>, to_widget: Wid },
    MouseExited { from_widget: Wid, to_widget: Option<Wid> },
    HoverStart { over_widget: Wid },
    HoverEnd { over_widget: Wid },
    Scroll,
    KeyPress { key: Key },
    KeyRelease { key: Key },
    Text { text: String },
    Resize,
    Focus { has_focus: bool },
    WidgetStateChanged { old_state: WidgetState, new_state: WidgetState },
    WidgetEvent { event: WidgetEvent, originating_widget: Wid, most_recently_from_widget: Wid },
    /// `payload` identifies the event's content, which the raiser keeps.
    CustomEvent { payload: u64, originating_widget: Wid },
}

/// The position of an event's kind in the list of event types; its type flag is the
/// bit at that position.
pub open spec fn event_kind_index(e: UIEvent) -> u32 {
    match e {
        UIEvent::MousePress { .. } => 0,
        UIEvent::MouseRelease { .. } => 1,
        UIEvent::MouseDrag { .. } => 2,
        UIEvent::MouseMove => 3,
        UIEvent::MousePosition => 4,
        UIEvent::Scroll => 5,
        UIEvent::KeyPress { .. } => 6,
        UIEvent::KeyRelease { .. } => 7,
        UIEvent::Text { .. } => 8,
        UIEvent::Resize => 9,
        UIEvent::Focus { .. } => 10,
        UIEvent::WidgetStateChanged { .. } => 11,
        UIEvent::MouseEntered { .. } => 12,
        UIEvent::MouseExited { .. } => 13,
        UIEvent::WidgetEvent { .. } => 14,
        UIEvent::HoverStart { .. } => 15,
        UIEvent::HoverEnd { .. } => 16,
        UIEvent::CustomEvent { .. } => 17,
    }
}

/// The type flag of an event.
pub open spec fn event_flag(e: UIEvent) -> u32 {
    1u32 << event_kind_index(e)
}

/// A set of event types as a bit set; a single event's type is one bit.
#[derive(Clone, Copy, PartialEq, Eq, Structural, Debug)]
pub struct UIEventType {
    pub bit_flag: u32,
}

impl UIEventType {
    /// The event type with the given flag bits.
    pub fn new(bit_flag: u32) -> (t: UIEventType)
        ensures
            t.bit_flag == bit_flag,
    {
        UIEventType { bit_flag }
    }
}

/// The types of the individual kinds of event.
impl UIEventType {
    /// The type of `mouse_press` events.
    pub fn mouse_press() -> (t: UIEventType)
        ensures
            t.bit_flag == 1u32 << 0u32,
    {
        UIEventType { bit_flag: 1u32 << 0u32 }
    }

    /// The type of `mouse_release` events.
    pub fn mouse_release() -> (t: UIEventType)
        ensures
            t.bit_flag == 1u32 << 1u32,
    {
        UIEventType { bit_flag: 1u32 << 1u32 }
    }

    /// The type of `mouse_drag` events.
    pub fn mouse_drag() -> (t: UIEventType)
        ensures
            t.bit_flag == 1u32 << 2u32,
    {
        UIEventType { bit_flag: 1u32 << 2u32 }
    }

    /// The type of `mouse_move` events.
    pub fn mouse_move() -> (t: UIEventType)
        ensures
            t.bit_flag == 1u32 << 3u32,
    {
        UIEventType { bit_flag: 1u32 << 3u32 }
    }

    /// The type of `mouse_position` events.
    pub fn mouse_position() -> (t: UIEventType)
        ensures
            t.bit_flag == 1u32 << 4u32,
    {
        UIEventType { bit_flag: 1u32 << 4u32 }
    }

    /// The type of `scroll` events.
    pub fn scroll() -> (t: UIEventType)
        ensures
            t.bit_flag == 1u32 << 5u32,
    {
        UIEventType { bit_flag: 1u32 << 5u32 }
    }

    /// The type of `key_press` events.
    pub fn key_press() -> (t: UIEventType)
        ensures
            t.bit_flag == 1u32 << 6u32,
    {
        UIEventType { bit_flag: 1u32 << 6u32 }
    }

    /// The type of `key_release` events.
    pub fn key_release() -> (t: UIEventType)
        ensures
            t.bit_flag == 1u32 << 7u32,
    {
        UIEventType { bit_flag: 1u32 << 7u32 }
    }

    /// The type of `text` events.
    pub fn text() -> (t: UIEventType)
        ensures
            t.bit_flag == 1u32 << 8u32,
    {
        UIEventType { bit_flag: 1u32 << 8u32 }
    }

    /// The type of `resize` events.
    pub fn resize() -> (t: UIEventType)
        ensures
            t.bit_flag == 1u32 << 9u32,
    {
        UIEventType { bit_flag: 1u32 << 9u32 }
    }

    /// The type of `focus` events.
    pub fn focus() -> (t: UIEventType)
        ensures
            t.bit_flag == 1u32 << 10u32,
    {
        UIEventType { bit_flag: 1u32 << 10u32 }
    }

    /// The type of `widget_state_changed` events.
    pub fn widget_state_changed() -> (t: UIEventType)
        ensures
            t.bit_flag == 1u32 << 11u32,
    {
        UIEventType { bit_flag: 1u32 << 11u32 }
    }

    /// The type of `mouse_entered` events.
    pub fn mouse_entered() -> (t: UIEventType)
        ensures
            t.bit_flag == 1u32 << 12u32,
    {
        UIEventType { bit_flag: 1u32 << 12u32 }
    }

    /// The type of `mouse_exited` events.
    pub fn mouse_exited() -> (t: UIEventType)
        ensures
            t.bit_flag == 1u32 << 13u32,
    {
        UIEventType { bit_flag: 1u32 << 13u32 }
    }

    /// The type of `widget_event` events.
    pub fn widget_event() -> (t: UIEventType)
        ensures
            t.bit_flag == 1u32 << 14u32,
    {
        UIEventType { bit_flag: 1u32 << 14u32 }
    }

    /// The type of `hover_start` events.
    pub fn hover_start() -> (t: UIEventType)
        ensures
            t.bit_flag == 1u32 << 15u32,
    {
        UIEventType { bit_flag: 1u32 << 15u32 }
    }

    /// The type of `hover_end` events.
    pub fn hover_end() -> (t: UIEventType)
        ensures
            t.bit_flag == 1u32 << 16u32,
    {
        UIEventType { bit_flag: 1u32 << 16u32 }
    }

    /// The type of `custom_event` events.
    pub fn custom_event() -> (t: UIEventType)
        ensures
            t.bit_flag == 1u32 << 17u32,
    {
        UIEventType { bit_flag: 1u32 << 17u32 }
    }

    /// The types of all mouse events.
    pub fn mouse_event_types() -> (v: Vec<UIEventType>)
        ensures
            v@ == seq![
                UIEventType { bit_flag: 1u32 << 0u32 },
                UIEventType { bit_flag: 1u32 << 1u32 },
                UIEventType { bit_flag: 1u32 << 2u32 },
                UIEventType { bit_flag: 1u32 << 3u32 },
                UIEventType { bit_flag: 1u32 << 4u32 },
                UIEventType { bit_flag: 1u32 << 12u32 },
                UIEventType { bit_flag: 1u32 << 13u32 },
            ],
    {
        let v = vec![
            UIEventType::mouse_press(),
            UIEventType::mouse_release(),
            UIEventType::mouse_drag(),
            UIEventType::mouse_move(),
            UIEventType::mouse_position(),
            UIEventType::mouse_entered(),
            UIEventType::mouse_exited(),
        ];
        assert(v@ =~= seq![
                UIEventType { bit_flag: 1u32 << 0u32 },
                UIEventType { bit_flag: 1u32 << 1u32 },
                UIEventType { bit_flag: 1u32 << 2u32 },
                UIEventType { bit_flag: 1u32 << 3u32 },
                UIEventType { bit_flag: 1u32 << 4u32 },
                UIEventType { bit_flag: 1u32 << 12u32 },
                UIEventType { bit_flag: 1u32 << 13u32 },
            ]);
        v
    }

    /// The types of both key events.
    pub fn key_events() -> (v: Vec<UIEventType>)
        ensures
            v@ == seq![UIEventType { bit_flag: 1u32 << 6u32 }, UIEventType { bit_flag: 1u32 << 7u32 }],
    {
        let v = vec![UIEventType::key_press(), UIEventType::key_release()];
        v
    }
}

proof fn lemma_shift_bits(i: u32, j: u32)
    requires
        i < 32,
        j < 32,
    ensures
        (1u32 << i) != 0u32,
        i != j ==> (1u32 << i) & (1u32 << j) == 0u32,
        (1u32 << i) & (1u32 << i) != 0u32,
{
    assert((1u32 << i) != 0u32) by (bit_vector)
        requires
            i < 32,
    ;
    assert(i != j ==> (1u32 << i) & (1u32 << j) == 0u32) by (bit_vector)
        requires
            i < 32,
            j < 32,
    ;
    assert((1u32 << i) & (1u32 << i) != 0u32) by (bit_vector)
        requires
            i < 32,
    ;
}

/// Every event has a nonzero type flag, and events of different kinds have
/// flags with no bit in common.
pub proof fn lemma_event_flags_disjoint(a: UIEvent, b: UIEvent)
    ensures
        event_flag(a) != 0u32,
        event_flag(a) & event_flag(a) != 0u32,
        event_kind_index(a) != event_kind_index(b) ==> event_flag(a) & event_flag(b) == 0u32,
{
    lemma_shift_bits(event_kind_index(a), event_kind_index(b));
}

/// The mathematical value of an event.
pub enum UIEventView {
    MousePress { button: MouseButton },
    MouseRelease { button: MouseButton },
    MouseDrag { button: MouseButton },
    MouseMove,
    MousePosition,
    MouseEntered { from_widget: Option<Wid>, to_widget: Wid },
    MouseExited { from_widget: Wid, to_widget: Option<Wid> },
    HoverStart { over_widget: Wid },
    HoverEnd { over_widget: Wid },
    Scroll,
    KeyPress { key: Key },
    KeyRelease { key: Key },
    Text { text: Seq<char> },
    Resize,
    Focus { has_focus: bool },
    WidgetStateChanged { old_state: WidgetStateView, new_state: WidgetStateView },
    WidgetEvent { event: WidgetEvent, originating_widget: Wid, most_recently_from_widget: Wid },
    /// `payload` identifies the event's content, which the raiser keeps.
    CustomEvent { payload: u64, originating_widget: Wid },
}

impl View for UIEvent {
    type V = UIEventView;

    open spec fn view(&self) -> UIEventView {
        match self {
            UIEvent::MousePress { button } => UIEventView::MousePress { button: *button },
            UIEvent::MouseRelease { button } => UIEventView::MouseRelease { button: *button },
            UIEvent::MouseDrag { button } => UIEventView::MouseDrag { button: *button },
            UIEvent::MouseMove => UIEventView::MouseMove,
            UIEvent::MousePosition => UIEventView::MousePosition,
            UIEvent::MouseEntered { from_widget, to_widget } => UIEventView::MouseEntered {
                from_widget: *from_widget,
                to_widget: *to_widget,
            },
            UIEvent::MouseExited { from_widget, to_widget } => UIEventView::MouseExited {
                from_widget: *from_widget,
                to_widget: *to_widget,
            },
            UIEvent::HoverStart { over_widget } => UIEventView::HoverStart { over_widget: *over_widget },
            UIEvent::HoverEnd { over_widget } => UIEventView::HoverEnd { over_widget: *over_widget },
            UIEvent::Scroll => UIEventView::Scroll,
            UIEvent::KeyPress { key } => UIEventView::KeyPress { key: *key },
            UIEvent::KeyRelease { key } => UIEventView::KeyRelease { key: *key },
            UIEvent::Text { text } => UIEventView::Text { text: text@ },
            UIEvent::Resize => UIEventView::Resize,
            UIEvent::Focus { has_focus } => UIEventView::Focus { has_focus: *has_focus },
            UIEvent::WidgetStateChanged { old_state, new_state } => UIEventView::WidgetStateChanged {
                old_state: old_state@,
                new_state: new_state@,
            },
            UIEvent::WidgetEvent { event, originating_widget, most_recently_from_widget } =>
                UIEventView::WidgetEvent {
                event: *event,
                originating_widget: *originating_widget,
                most_recently_from_widget: *most_recently_from_widget,
            },
            UIEvent::CustomEvent { payload, originating_widget } => UIEventView::CustomEvent {
                payload: *payload,
                originating_widget: *originating_widget,
            },
        }
    }
}

/// A widget event's value re-tagged as last passed on by `w`; any other event's
/// value unchanged.
pub open spec fn retagged(e: UIEventView, w: Wid) -> UIEventView {
    match e {
        UIEventView::WidgetEvent { event, originating_widget, .. } => UIEventView::WidgetEvent {
            event,
            originating_widget,
            most_recently_from_widget: w,
        },
        _ => e,
    }
}

impl UIEvent {
    /// A widget event that starts out at widget `wid`.
    pub fn widget_event(event: WidgetEvent, wid: Wid) -> (e: UIEvent)
        ensures
            e == (UIEvent::WidgetEvent { event, originating_widget: wid, most_recently_from_widget: wid }),
    {
        UIEvent::WidgetEvent { event, originating_widget: wid, most_recently_from_widget: wid }
    }

    /// A custom event raised by `originating_widget`, its content identified by
    /// `payload`.
    pub fn custom_event(payload: u64, originating_widget: Wid) -> (e: UIEvent)
        ensures
            e == (UIEvent::CustomEvent { payload, originating_widget }),
    {
        UIEvent::CustomEvent { payload, originating_widget }
    }

    /// The payload identifier and raising widget of a custom event; `None` for any
    /// other event.
    pub fn as_custom_event(&self) -> (r: Option<(u64, Wid)>)
        ensures
            match *self {
                UIEvent::CustomEvent { payload, originating_widget } => r == Some((payload, originating_widget)),
                _ => r is None,
            },
    {
        match self {
            UIEvent::CustomEvent { payload, originating_widget } => Some((*payload, *originating_widget)),
            _ => None,
        }
    }

    /// A copy of this event.
    pub fn duplicate(&self) -> (r: UIEvent)
        ensures
            r@ == self@,
            event_kind_index(r) == event_kind_index(*self),
            r is KeyPress ==> r == *self,
            r is KeyRelease ==> r == *self,
    {
        match self {
            UIEvent::MousePress { button } => UIEvent::MousePress { button: *button },
            UIEvent::MouseRelease { button } => UIEvent::MouseRelease { button: *button },
            UIEvent::MouseDrag { button } => UIEvent::MouseDrag { button: *button },
            UIEvent::MouseMove => UIEvent::MouseMove,
            UIEvent::MousePosition => UIEvent::MousePosition,
            UIEvent::MouseEntered { from_widget, to_widget } => UIEvent::MouseEntered {
                from_widget: *from_widget,
                to_widget: *to_widget,
            },
            UIEvent::MouseExited { from_widget, to_widget } => UIEvent::MouseExited {
                from_widget: *from_widget,
                to_widget: *to_widget,
            },
            UIEvent::HoverStart { over_widget } => UIEvent::HoverStart { over_widget: *over_widget },
            UIEvent::HoverEnd { over_widget } => UIEvent::HoverEnd { over_widget: *over_widget },
            UIEvent::Scroll => UIEvent::Scroll,
            UIEvent::KeyPress { key } => UIEvent::KeyPress { key: *key },
            UIEvent::KeyRelease { key } => UIEvent::KeyRelease { key: *key },
            UIEvent::Text { text } => UIEvent::Text { text: text.clone() },
            UIEvent::Resize => UIEvent::Resize,
            UIEvent::Focus { has_focus } => UIEvent::Focus { has_focus: *has_focus },
            UIEvent::WidgetStateChanged { old_state, new_state } => UIEvent::WidgetStateChanged {
                old_state: old_state.duplicate(),
                new_state: new_state.duplicate(),
            },
            UIEvent::WidgetEvent { event, originating_widget, most_recently_from_widget } =>
                UIEvent::WidgetEvent {
                event: *event,
                originating_widget: *originating_widget,
                most_recently_from_widget: *most_recently_from_widget,
            },
            UIEvent::CustomEvent { payload, originating_widget } => UIEvent::CustomEvent {
                payload: *payload,
                originating_widget: *originating_widget,
            },
        }
    }

    /// A widget event re-tagged as last passed on by `w`; any other event is copied
    /// unchanged.
    pub fn clone_with_most_recently_from_widget(&self, w: Wid) -> (r: UIEvent)
        ensures
            r@ == retagged(self@, w),
            event_kind_index(r) == event_kind_index(*self),
            r is KeyPress ==> r == *self,
            r is KeyRelease ==> r == *self,
    {
        if let UIEvent::WidgetEvent { event, originating_widget, .. } = self {
            UIEvent::WidgetEvent {
                event: *event,
                originating_widget: *originating_widget,
                most_recently_from_widget: w,
            }
        } else {
            self.duplicate()
        }
    }

    /// The event's type.
    pub fn event_type(&self) -> (t: UIEventType)
        ensures
            t.bit_flag == event_flag(*self),
    {
        let bit_flag: u32 = match self {
            UIEvent::MousePress { .. } => 1u32 << 0u32,
            UIEvent::MouseRelease { .. } => 1u32 << 1u32,
            UIEvent::MouseDrag { .. } => 1u32 << 2u32,
            UIEvent::MouseMove => 1u32 << 3u32,
            UIEvent::MousePosition => 1u32 << 4u32,
            UIEvent::Scroll => 1u32 << 5u32,
            UIEvent::KeyPress { .. } => 1u32 << 6u32,
            UIEvent::KeyRelease { .. } => 1u32 << 7u32,
            UIEvent::Text { .. } => 1u32 << 8u32,
            UIEvent::Resize => 1u32 << 9u32,
            UIEvent::Focus { .. } => 1u32 << 10u32,
            UIEvent::WidgetStateChanged { .. } => 1u32 << 11u32,
            UIEvent::MouseEntered { .. } => 1u32 << 12u32,
            UIEvent::MouseExited { .. } => 1u32 << 13u32,
            UIEvent::WidgetEvent { .. } => 1u32 << 14u32,
            UIEvent::HoverStart { .. } => 1u32 << 15u32,
            UIEvent::HoverEnd { .. } => 1u32 << 16u32,
            UIEvent::CustomEvent { .. } => 1u32 << 17u32,
        };
        UIEventType { bit_flag }
    }

    /// The event's type flag.
    pub fn bit_flag(&self) -> (f: u32)
        ensures
            f == event_flag(*self),
    {
        self.event_type().bit_flag
    }
}

} // verus!
