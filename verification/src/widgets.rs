use vstd::prelude::*;
use crate::events::{UIEvent, UIEventType, Key, MouseButton, WidgetState, WidgetStateView, event_flag, lemma_event_flags_disjoint, same_text};

verus! {

/// Identifier of a widget. The value 0 is reserved for "no widget yet".
#[derive(PartialEq, Eq, Structural, Clone, Copy, Debug, Hash, PartialOrd, Ord)]
pub struct Wid(pub usize);

/// The identifier carried by widgets that have not been registered yet.
pub fn no_wid() -> (w: Wid)
    ensures
        w.0 == 0,
{
    Wid(0)
}

/// Source of fresh widget identifiers: the last identifier handed out.
#[derive(Debug)]
pub struct WidCounter {
    pub last: usize,
}

impl WidCounter {
    /// A counter that has handed out nothing; the first identifier is 1.
    pub fn new() -> (c: WidCounter)
        ensures
            c.last == 0,
    {
        WidCounter { last: 0 }
    }
}

/// The identifiers a counter has handed out: every one from 1 to the last.
pub open spec fn handed_out(counter: WidCounter) -> Set<usize> {
    Set::new(|i: usize| 1 <= i <= counter.last)
}

/// Hands out the next widget identifier: one more than the last one handed out,
/// never handed out before and never the reserved 0.
pub fn create_wid(counter: &mut WidCounter) -> (w: Wid)
    requires
        old(counter).last < usize::MAX,
    ensures
        final(counter).last == old(counter).last + 1,
        w.0 == final(counter).last,
        w.0 != 0,
        !handed_out(*old(counter)).contains(w.0),
        handed_out(*final(counter)) == handed_out(*old(counter)).insert(w.0),
{
    counter.last = counter.last + 1;
    let w = Wid(counter.last);
    proof {
        assert(handed_out(*counter) =~= handed_out(*old(counter)).insert(w.0));
    }
    w
}

/// Identifiers from one counter are fresh: of two identifiers handed out one after
/// the other (the counter having handed out any number in between), neither is the
/// reserved 0 and the later one is greater, so none is handed out twice.
pub proof fn lemma_wid_ids_increase(before_first: WidCounter, a: Wid, before_second: WidCounter, b: Wid)
    requires
        a.0 == before_first.last + 1,
        handed_out(before_second).contains(a.0),
        b.0 == before_second.last + 1,
    ensures
        a.0 != 0,
        b.0 != 0,
        a.0 < b.0,
        !handed_out(before_second).contains(b.0),
{
}

/// Which side of a rectangle, or which way a widget is anchored on an axis.
#[derive(Clone, Copy, Eq, PartialEq, Structural, Debug)]
pub enum Alignment {
    Top,
    Left,
    Right,
    Bottom,
}

/// The bit that stands for one side in a `BorderSides` set.
pub open spec fn side_flag(a: Alignment) -> u8 {
    match a {
        Alignment::Left => 1u8,
        Alignment::Right => 2u8,
        Alignment::Top => 4u8,
        Alignment::Bottom => 8u8,
    }
}

/// Whether the bit set `bits` holds side `a`.
pub open spec fn bits_have_side(bits: u8, a: Alignment) -> bool {
    bits & side_flag(a) != 0u8
}

/// The set of sides named by a bit set.
pub open spec fn sides_of_bits(bits: u8) -> Set<Alignment> {
    Set::new(|a: Alignment| bits_have_side(bits, a))
}

proof fn lemma_single_bit_or(b: u8, c: u8, d: u8)
    requires
        c == 1u8 || c == 2u8 || c == 4u8 || c == 8u8,
        d == 1u8 || d == 2u8 || d == 4u8 || d == 8u8,
    ensures
        (b | c) & c != 0u8,
        (b & !c) & c == 0u8,
        c != d ==> (((b | c) & d != 0u8) == (b & d != 0u8)),
        c != d ==> (((b & !c) & d != 0u8) == (b & d != 0u8)),
        (0u8 & d) == 0u8,
        (255u8 & d) != 0u8,
        (c & d != 0u8) == (c == d),
{
    assert((b | c) & c != 0u8) by (bit_vector)
        requires
            c == 1u8 || c == 2u8 || c == 4u8 || c == 8u8,
    ;
    assert((b & !c) & c == 0u8) by (bit_vector);
    assert(c != d ==> (((b | c) & d != 0u8) == (b & d != 0u8))) by (bit_vector)
        requires
            c == 1u8 || c == 2u8 || c == 4u8 || c == 8u8,
            d == 1u8 || d == 2u8 || d == 4u8 || d == 8u8,
    ;
    assert(c != d ==> (((b & !c) & d != 0u8) == (b & d != 0u8))) by (bit_vector)
        requires
            c == 1u8 || c == 2u8 || c == 4u8 || c == 8u8,
            d == 1u8 || d == 2u8 || d == 4u8 || d == 8u8,
    ;
    assert((0u8 & d) == 0u8) by (bit_vector);
    assert((255u8 & d) != 0u8) by (bit_vector)
        requires
            d == 1u8 || d == 2u8 || d == 4u8 || d == 8u8,
    ;
    assert((c & d != 0u8) == (c == d)) by (bit_vector)
        requires
            c == 1u8 || c == 2u8 || c == 4u8 || c == 8u8,
            d == 1u8 || d == 2u8 || d == 4u8 || d == 8u8,
    ;
}

proof fn lemma_flags_distinct(a: Alignment, b: Alignment)
    ensures
        (side_flag(a) == side_flag(b)) == (a == b),
        side_flag(a) == 1u8 || side_flag(a) == 2u8 || side_flag(a) == 4u8 || side_flag(a) == 8u8,
{
}

/// Adding side `a` to bit set `b` adds exactly `a` to its set of sides.
proof fn lemma_with_flag(b: u8, a: Alignment)
    ensures
        sides_of_bits(b | side_flag(a)) == sides_of_bits(b).insert(a),
{
    assert forall|x: Alignment| #[trigger] sides_of_bits(b | side_flag(a)).contains(x) == sides_of_bits(b).insert(a).contains(x) by {
        lemma_flags_distinct(a, x);
        lemma_flags_distinct(x, x);
        lemma_single_bit_or(b, side_flag(a), side_flag(x));
    }
}

/// Clearing side `a` in bit set `b` removes exactly `a` from its set of sides.
proof fn lemma_without_flag(b: u8, a: Alignment)
    ensures
        sides_of_bits(b & !side_flag(a)) == sides_of_bits(b).remove(a),
{
    assert forall|x: Alignment| #[trigger] sides_of_bits(b & !side_flag(a)).contains(x) == sides_of_bits(b).remove(a).contains(x) by {
        lemma_flags_distinct(a, x);
        lemma_flags_distinct(x, x);
        lemma_single_bit_or(b, side_flag(a), side_flag(x));
    }
}

/// A side just added to a border is there, a side just taken away is not, and
/// adding and then taking away a side leaves the border's other sides as they were.
pub proof fn lemma_border_sides_add_remove(b: u8, a: Alignment, x: Alignment)
    ensures
        sides_of_bits(b | side_flag(a)).contains(a),
        !sides_of_bits(b & !side_flag(a)).contains(a),
        sides_of_bits((b | side_flag(a)) & !side_flag(a)) == sides_of_bits(b).remove(a),
        x != a ==> sides_of_bits(b | side_flag(a)).contains(x) == sides_of_bits(b).contains(x),
        x != a ==> sides_of_bits(b & !side_flag(a)).contains(x) == sides_of_bits(b).contains(x),
{
    lemma_with_flag(b, a);
    lemma_without_flag(b, a);
    lemma_without_flag(b | side_flag(a), a);
}

/// The set of all four sides.
pub open spec fn all_sides() -> Set<Alignment> {
    Set::empty().insert(Alignment::Top).insert(Alignment::Left).insert(Alignment::Right).insert(
        Alignment::Bottom,
    )
}

/// The sides of a widget border that are drawn, as a bit set.
#[derive(Clone, PartialEq, Eq, Structural, Debug)]
pub struct BorderSides(pub u8);

impl BorderSides {
    /// The set of sides this value holds.
    pub open spec fn sides(self) -> Set<Alignment> {
        sides_of_bits(self.0)
    }

    /// Every side (all bits set).
    pub fn all() -> (s: BorderSides)
        ensures
            s.0 == 0xffu8,
            s.sides() == all_sides(),
    {
        proof {
            assert forall|x: Alignment| #[trigger] sides_of_bits(0xffu8).contains(x) == all_sides().contains(x) by {
                lemma_flags_distinct(x, x);
                lemma_single_bit_or(0u8, 1u8, side_flag(x));
            }
        }
        BorderSides(0xff)
    }

    /// Exactly the three given sides.
    pub fn three_sides(a: Alignment, b: Alignment, c: Alignment) -> (s: BorderSides)
        ensures
            s.0 == side_flag(a) | side_flag(b) | side_flag(c),
            s.sides() == Set::empty().insert(a).insert(b).insert(c),
    {
        proof {
            lemma_with_flag(0u8, a);
            lemma_with_flag(side_flag(a), b);
            lemma_with_flag(side_flag(a) | side_flag(b), c);
            assert(0u8 | side_flag(a) == side_flag(a)) by (bit_vector);
            assert forall|x: Alignment| !#[trigger] sides_of_bits(0u8).contains(x) by {
                lemma_flags_distinct(x, x);
                lemma_single_bit_or(0u8, 1u8, side_flag(x));
            }
        }
        BorderSides(
            BorderSides::alignment_to_flag(a) | BorderSides::alignment_to_flag(b)
                | BorderSides::alignment_to_flag(c),
        )
    }

    /// Exactly the two given sides.
    pub fn two_sides(a: Alignment, b: Alignment) -> (s: BorderSides)
        ensures
            s.0 == side_flag(a) | side_flag(b),
            s.sides() == Set::empty().insert(a).insert(b),
    {
        proof {
            lemma_with_flag(0u8, a);
            lemma_with_flag(side_flag(a), b);
            assert(0u8 | side_flag(a) == side_flag(a)) by (bit_vector);
            assert forall|x: Alignment| !#[trigger] sides_of_bits(0u8).contains(x) by {
                lemma_flags_distinct(x, x);
                lemma_single_bit_or(0u8, 1u8, side_flag(x));
            }
        }
        BorderSides(BorderSides::alignment_to_flag(a) | BorderSides::alignment_to_flag(b))
    }

    /// Exactly the given side.
    pub fn one_side(a: Alignment) -> (s: BorderSides)
        ensures
            s.0 == side_flag(a),
            s.sides() == Set::empty().insert(a),
    {
        proof {
            lemma_with_flag(0u8, a);
            assert(0u8 | side_flag(a) == side_flag(a)) by (bit_vector);
            assert forall|x: Alignment| !#[trigger] sides_of_bits(0u8).contains(x) by {
                lemma_flags_distinct(x, x);
                lemma_single_bit_or(0u8, 1u8, side_flag(x));
            }
        }
        BorderSides(BorderSides::alignment_to_flag(a))
    }

    /// No side at all.
    pub fn none() -> (s: BorderSides)
        ensures
            s.0 == 0u8,
            s.sides() == Set::<Alignment>::empty(),
    {
        proof {
            assert forall|x: Alignment| !#[trigger] sides_of_bits(0u8).contains(x) by {
                lemma_flags_distinct(x, x);
                lemma_single_bit_or(0u8, 1u8, side_flag(x));
            }
        }
        BorderSides(0)
    }

    /// The same sides with `side` cleared.
    pub fn without_side(&self, side: Alignment) -> (s: BorderSides)
        ensures
            s.0 == self.0 & !side_flag(side),
            s.sides() == self.sides().remove(side),
    {
        proof {
            lemma_without_flag(self.0, side);
        }
        BorderSides(self.0 & (!(BorderSides::alignment_to_flag(side))))
    }

    /// The same sides with `side` set.
    pub fn with_side(&self, side: Alignment) -> (s: BorderSides)
        ensures
            s.0 == self.0 | side_flag(side),
            s.sides() == self.sides().insert(side),
    {
        proof {
            lemma_with_flag(self.0, side);
        }
        BorderSides(self.0 | (BorderSides::alignment_to_flag(side)))
    }

    /// Whether side `a` is set.
    pub fn has_side(&self, a: Alignment) -> (r: bool)
        ensures
            r == self.sides().contains(a),
    {
        (self.0 & BorderSides::alignment_to_flag(a)) != 0
    }

    /// Whether the near side of an axis is set: left for axis 0, top for axis 1,
    /// and no side for any other axis.
    pub fn has_near_side_for_axis(&self, axis: usize) -> (r: bool)
        ensures
            axis == 0 ==> r == self.sides().contains(Alignment::Left),
            axis == 1 ==> r == self.sides().contains(Alignment::Top),
            axis > 1 ==> !r,
    {
        match axis {
            0 => self.has_side(Alignment::Left),
            1 => self.has_side(Alignment::Top),
            _ => false,
        }
    }

    /// Whether the far side of an axis is set: right for axis 0, bottom for axis 1,
    /// and no side for any other axis.
    pub fn has_far_side_for_axis(&self, axis: usize) -> (r: bool)
        ensures
            axis == 0 ==> r == self.sides().contains(Alignment::Right),
            axis == 1 ==> r == self.sides().contains(Alignment::Bottom),
            axis > 1 ==> !r,
    {
        match axis {
            0 => self.has_side(Alignment::Right),
            1 => self.has_side(Alignment::Bottom),
            _ => false,
        }
    }

    /// The bit that stands for side `a`.
    pub fn alignment_to_flag(a: Alignment) -> (f: u8)
        ensures
            f == side_flag(a),
    {
        match a {
            Alignment::Left => 1,
            Alignment::Right => 2,
            Alignment::Top => 4,
            Alignment::Bottom => 8,
        }
    }
}


/// How a window image is cut into pieces when it is stretched.
#[derive(Clone, Copy, PartialEq, Eq, Structural, Debug)]
pub enum ImageSegmentation {
    Unsegmented,
    Horizontal,
    Vertical,
    Sides,
}

impl Default for ImageSegmentation {
    /// No segmentation.
    fn default() -> (s: ImageSegmentation)
        ensures
            s == ImageSegmentation::Unsegmented,
    {
        ImageSegmentation::Unsegmented
    }
}

/// The bit of a callback reference that marks a callback as inherent to its widget.
pub open spec fn inherent_bit() -> u32 {
    0x8000_0000u32
}

/// The bits of a callback reference that hold the callback's identifier.
pub open spec fn callback_id_mask() -> u32 {
    0x7fff_ffffu32
}

/// A reference to a registered callback: the high bit says whether the callback is
/// inherent to the widget (survives `clear_callbacks`), the other 31 bits hold its id.
#[derive(Clone, Copy, Eq, PartialEq, Structural, Debug)]
pub struct WidgetCallbackRef(pub u32);

impl WidgetCallbackRef {
    /// Whether the inherent bit is set.
    pub open spec fn spec_is_inherent(self) -> bool {
        self.0 & inherent_bit() != 0u32
    }

    /// The identifier bits.
    pub open spec fn spec_id(self) -> u32 {
        self.0 & callback_id_mask()
    }

    /// An inherent reference when `inherent` holds, a listener reference otherwise.
    pub fn new(id: u32, inherent: bool) -> (r: WidgetCallbackRef)
        ensures
            inherent ==> r.0 == id | inherent_bit(),
            !inherent ==> r.0 == id & callback_id_mask(),
            r.spec_is_inherent() == inherent,
            r.spec_id() == id & callback_id_mask(),
    {
        if inherent {
            WidgetCallbackRef::inherent_callback(id)
        } else {
            WidgetCallbackRef::listener_callback(id)
        }
    }

    /// A reference with the inherent bit set.
    pub fn inherent_callback(id: u32) -> (r: WidgetCallbackRef)
        ensures
            r.0 == id | inherent_bit(),
            r.spec_is_inherent(),
            r.spec_id() == id & callback_id_mask(),
    {
        let r = WidgetCallbackRef(id | 0x8000_0000u32);
        assert((id | 0x8000_0000u32) & 0x8000_0000u32 != 0u32) by (bit_vector);
        assert((id | 0x8000_0000u32) & 0x7fff_ffffu32 == id & 0x7fff_ffffu32) by (bit_vector);
        r
    }

    /// A reference with the inherent bit cleared.
    pub fn listener_callback(id: u32) -> (r: WidgetCallbackRef)
        ensures
            r.0 == id & callback_id_mask(),
            !r.spec_is_inherent(),
            r.spec_id() == id & callback_id_mask(),
    {
        let r = WidgetCallbackRef(id & 0x7fff_ffffu32);
        assert((id & 0x7fff_ffffu32) & 0x8000_0000u32 == 0u32) by (bit_vector);
        assert((id & 0x7fff_ffffu32) & 0x7fff_ffffu32 == id & 0x7fff_ffffu32) by (bit_vector);
        r
    }

    /// Whether the callback is inherent to its widget.
    pub fn is_inherent(&self) -> (b: bool)
        ensures
            b == self.spec_is_inherent(),
    {
        (self.0 & 0x8000_0000u32) != 0
    }

    /// The callback's identifier.
    pub fn id(&self) -> (i: u32)
        ensures
            i == self.spec_id(),
            i <= callback_id_mask(),
    {
        let v = self.0;
        assert(v & 0x7fff_ffffu32 <= 0x7fff_ffffu32) by (bit_vector);
        v & 0x7fff_ffffu32
    }
}

/// An identifier below 2^31 survives a round trip through a callback reference.
pub proof fn lemma_callback_ref_round_trip(id: u32, inherent: bool)
    requires
        id <= callback_id_mask(),
    ensures
        id & callback_id_mask() == id,
{
    assert(id <= 0x7fff_ffffu32 ==> id & 0x7fff_ffffu32 == id) by (bit_vector);
}

/// The layer a widget is drawn in; the overlay is drawn after the main layer.
#[derive(PartialEq, Eq, Structural, Debug, Clone, Copy)]
pub enum GUILayer {
    Overlay,
    Main,
}

/// The modifier keys currently held down.
#[derive(Clone, Copy, PartialEq, Eq, Structural, Debug)]
pub struct Modifiers {
    pub ctrl: bool,
    pub shift: bool,
    pub alt: bool,
}

impl Default for Modifiers {
    /// No modifier held.
    fn default() -> (m: Modifiers)
        ensures
            !m.ctrl && !m.shift && !m.alt,
    {
        Modifiers { ctrl: false, shift: false, alt: false }
    }
}


/// Which events a widget consumes, so that they do not travel on to its parent.
#[derive(Debug)]
pub enum EventConsumption {
    /// Every event whose type flag shares a bit with these flags.
    EventTypes(u32),
    /// Presses and releases of this key.
    Key(Key),
    /// Everything either part consumes.
    Compound(Box<EventConsumption>, Box<EventConsumption>),
}

/// Whether `c` consumes event `e`.
pub open spec fn consumes(c: EventConsumption, e: UIEvent) -> bool
    decreases c,
{
    match c {
        EventConsumption::EventTypes(flags) => flags & event_flag(e) != 0u32,
        EventConsumption::Key(k) => match e {
            UIEvent::KeyPress { key } => key == k,
            UIEvent::KeyRelease { key } => key == k,
            _ => false,
        },
        EventConsumption::Compound(a, b) => consumes(*a, e) || consumes(*b, e),
    }
}

/// The bitwise or of all flags in a list of event types.
pub open spec fn or_of_types(types: Seq<UIEventType>) -> u32
    decreases types.len(),
{
    if types.len() == 0 {
        0u32
    } else {
        or_of_types(types.drop_last()) | types.last().bit_flag
    }
}

proof fn lemma_or_bits(a: u32, b: u32, f: u32)
    ensures
        ((a | b) & f != 0u32) == (a & f != 0u32 || b & f != 0u32),
        (0u32 & f) == 0u32,
        f != 0u32 ==> (0xffff_ffffu32 & f) != 0u32,
{
    assert(((a | b) & f != 0u32) == (a & f != 0u32 || b & f != 0u32)) by (bit_vector);
    assert((0u32 & f) == 0u32) by (bit_vector);
    assert(f != 0u32 ==> (0xffff_ffffu32 & f) != 0u32) by (bit_vector);
}

/// An event is consumed by the or of a list of types exactly when one of the
/// types shares a bit with the event's flag.
pub proof fn lemma_or_of_types_consumes(types: Seq<UIEventType>, e: UIEvent)
    ensures
        (or_of_types(types) & event_flag(e) != 0u32) == (exists|i: int|
            0 <= i < types.len() && #[trigger] types[i].bit_flag & event_flag(e) != 0u32),
    decreases types.len(),
{
    if types.len() == 0 {
        lemma_or_bits(0u32, 0u32, event_flag(e));
    } else {
        let init = types.drop_last();
        lemma_or_of_types_consumes(init, e);
        lemma_or_bits(or_of_types(init), types.last().bit_flag, event_flag(e));
        if or_of_types(types) & event_flag(e) != 0u32 {
            if or_of_types(init) & event_flag(e) != 0u32 {
                let i = choose|i: int| 0 <= i < init.len() && #[trigger] init[i].bit_flag & event_flag(e) != 0u32;
                assert(types[i] == init[i]);
            }
        } else {
            assert forall|i: int| 0 <= i < types.len() implies !(#[trigger] types[i].bit_flag & event_flag(e) != 0u32) by {
                if i < types.len() - 1 {
                    assert(types[i] == init[i]);
                }
            }
        }
    }
}

impl EventConsumption {
    /// A copy of this consumption rule.
    pub fn duplicate(&self) -> (r: EventConsumption)
        ensures
            r == *self,
        decreases self,
    {
        match self {
            EventConsumption::EventTypes(f) => EventConsumption::EventTypes(*f),
            EventConsumption::Key(k) => EventConsumption::Key(*k),
            EventConsumption::Compound(a, b) => EventConsumption::Compound(
                Box::new((**a).duplicate()),
                Box::new((**b).duplicate()),
            ),
        }
    }

    /// Consumes every event.
    pub fn all() -> (c: EventConsumption)
        ensures
            c == EventConsumption::EventTypes(0xffff_ffffu32),
            forall|e: UIEvent| #[trigger] consumes(c, e),
    {
        let c = EventConsumption::EventTypes(0xffff_ffffu32);
        assert forall|e: UIEvent| #[trigger] consumes(c, e) by {
            lemma_event_flags_disjoint(e, e);
            lemma_or_bits(0u32, 0u32, event_flag(e));
        }
        c
    }

    /// Consumes no event.
    pub fn none() -> (c: EventConsumption)
        ensures
            c == EventConsumption::EventTypes(0u32),
            forall|e: UIEvent| !#[trigger] consumes(c, e),
    {
        let c = EventConsumption::EventTypes(0u32);
        assert forall|e: UIEvent| !#[trigger] consumes(c, e) by {
            lemma_or_bits(0u32, 0u32, event_flag(e));
        }
        c
    }

    /// Consumes the events of any of the given types.
    pub fn of_types(event_types: &Vec<UIEventType>) -> (c: EventConsumption)
        ensures
            c == EventConsumption::EventTypes(or_of_types(event_types@)),
            forall|e: UIEvent| #[trigger] consumes(c, e) == (exists|i: int|
                0 <= i < event_types@.len() && #[trigger] event_types@[i].bit_flag & event_flag(e) != 0u32),
    {
        let mut flag: u32 = 0;
        let mut i: usize = 0;
        while i < event_types.len()
            invariant
                i <= event_types.len(),
                flag == or_of_types(event_types@.subrange(0, i as int)),
            decreases event_types.len() - i,
        {
            proof {
                let s = event_types@.subrange(0, i as int + 1);
                assert(s.drop_last() =~= event_types@.subrange(0, i as int));
            }
            flag = flag | event_types[i].bit_flag;
            i = i + 1;
        }
        assert(event_types@.subrange(0, i as int) =~= event_types@);
        let c = EventConsumption::EventTypes(flag);
        assert forall|e: UIEvent| #[trigger] consumes(c, e) == (exists|i: int|
            0 <= i < event_types@.len() && #[trigger] event_types@[i].bit_flag & event_flag(e) != 0u32) by {
            lemma_or_of_types_consumes(event_types@, e);
        }
        c
    }

    /// Consumes mouse presses and releases.
    pub fn mouse_press_and_release() -> (c: EventConsumption)
        ensures
            c == EventConsumption::EventTypes((1u32 << 0u32) | (1u32 << 1u32)),
    {
        EventConsumption::EventTypes(UIEventType::mouse_press().bit_flag | UIEventType::mouse_release().bit_flag)
    }

    /// Consumes presses, releases, moves, drags and position reports of the mouse.
    pub fn mouse_events() -> (c: EventConsumption)
        ensures
            c == EventConsumption::EventTypes(
                (1u32 << 0u32) | (1u32 << 1u32) | (1u32 << 3u32) | (1u32 << 2u32) | (1u32 << 4u32),
            ),
    {
        EventConsumption::EventTypes(
            UIEventType::mouse_press().bit_flag | UIEventType::mouse_release().bit_flag
                | UIEventType::mouse_move().bit_flag | UIEventType::mouse_drag().bit_flag
                | UIEventType::mouse_position().bit_flag,
        )
    }

    /// Consumes the mouse entering and leaving.
    pub fn enter_and_leave() -> (c: EventConsumption)
        ensures
            c == EventConsumption::EventTypes((1u32 << 12u32) | (1u32 << 13u32)),
    {
        EventConsumption::EventTypes(UIEventType::mouse_entered().bit_flag | UIEventType::mouse_exited().bit_flag)
    }

    /// Consumes widget events.
    pub fn widget_events() -> (c: EventConsumption)
        ensures
            c == EventConsumption::EventTypes(1u32 << 14u32),
    {
        EventConsumption::EventTypes(UIEventType::widget_event().bit_flag)
    }

    /// Consumes what either rule consumes. Two flag sets merge into one; anything
    /// else becomes a compound of copies of both.
    pub fn and(&self, other: &EventConsumption) -> (c: EventConsumption)
        ensures
            (match (*self, *other) {
                (EventConsumption::EventTypes(a), EventConsumption::EventTypes(b)) =>
                    c == EventConsumption::EventTypes(a | b),
                _ => c == EventConsumption::Compound(Box::new(*self), Box::new(*other)),
            }),
            forall|e: UIEvent| #[trigger] consumes(c, e) == (consumes(*self, e) || consumes(*other, e)),
    {
        if let EventConsumption::EventTypes(type_flags_a) = self {
            if let EventConsumption::EventTypes(type_flags_b) = other {
                let c = EventConsumption::EventTypes(*type_flags_a | *type_flags_b);
                assert forall|e: UIEvent| #[trigger] consumes(c, e) == (consumes(*self, e) || consumes(*other, e)) by {
                    lemma_or_bits(*type_flags_a, *type_flags_b, event_flag(e));
                }
                return c;
            }
        }
        EventConsumption::Compound(Box::new(self.duplicate()), Box::new(other.duplicate()))
    }

    /// Whether this rule consumes event `e`.
    pub fn consumes_event(&self, e: &UIEvent) -> (r: bool)
        ensures
            r == consumes(*self, *e),
        decreases self,
    {
        match self {
            EventConsumption::EventTypes(flags) => (*flags & e.bit_flag()) != 0,
            EventConsumption::Key(consumed_key) => match e {
                UIEvent::KeyPress { key } => *key == *consumed_key,
                UIEvent::KeyRelease { key } => *key == *consumed_key,
                _ => false,
            },
            EventConsumption::Compound(a, b) => a.consumes_event(e) || b.consumes_event(e),
        }
    }
}


/// How a widget is sized along one axis. Where the sizing carries an amount, the
/// amount belongs to the layout and is not held here.
#[derive(Clone, Copy, PartialEq, Eq, Structural, Debug)]
pub enum Sizing {
    PcntOfParent,
    /// Sized by the parent, but left out when the parent surrounds its children.
    PcntOfParentAllowingLoop,
    DeltaOfParent,
    ExtendToParentEdge,
    Constant,
    Derived,
    SurroundChildren,
}

/// How a widget is positioned along one axis. Where the positioning carries an
/// amount, the amount belongs to the layout and is not held here.
#[derive(Clone, Copy, PartialEq, Eq, Structural, Debug)]
pub enum Positioning {
    PcntOfParent,
    CenteredInParent,
    Constant,
    DeltaOfWidget(Wid, Alignment),
    MatchWidget(Wid),
    Absolute,
}

/// The widget, if any, whose placement a positioning depends on.
pub open spec fn positioning_dependency(p: Positioning) -> Option<Wid> {
    match p {
        Positioning::DeltaOfWidget(w, _) => Some(w),
        Positioning::MatchWidget(w) => Some(w),
        _ => None,
    }
}

impl Positioning {
    /// Positioned at the parent's origin.
    pub fn origin() -> (p: Positioning)
        ensures
            p == Positioning::Constant,
    {
        Positioning::Constant
    }

    /// Centered in the parent.
    pub fn centered() -> (p: Positioning)
        ensures
            p == Positioning::CenteredInParent,
    {
        Positioning::CenteredInParent
    }

    /// Positioned relative to another widget, on the given side of it.
    pub fn delta_of_widget(other_widget: &Widget, alignment: Alignment) -> (p: Positioning)
        ensures
            p == Positioning::DeltaOfWidget(other_widget.id, alignment),
    {
        Positioning::DeltaOfWidget(other_widget.id, alignment)
    }

    /// Below another widget.
    pub fn below(other_widget: &Widget) -> (p: Positioning)
        ensures
            p == Positioning::DeltaOfWidget(other_widget.id, Alignment::Bottom),
    {
        Positioning::delta_of_widget(other_widget, Alignment::Bottom)
    }

    /// Above another widget.
    pub fn above(other_widget: &Widget) -> (p: Positioning)
        ensures
            p == Positioning::DeltaOfWidget(other_widget.id, Alignment::Top),
    {
        Positioning::delta_of_widget(other_widget, Alignment::Top)
    }

    /// Left of another widget.
    pub fn left_of(other_widget: &Widget) -> (p: Positioning)
        ensures
            p == Positioning::DeltaOfWidget(other_widget.id, Alignment::Left),
    {
        Positioning::delta_of_widget(other_widget, Alignment::Left)
    }

    /// Right of another widget.
    pub fn right_of(other_widget: &Widget) -> (p: Positioning)
        ensures
            p == Positioning::DeltaOfWidget(other_widget.id, Alignment::Right),
    {
        Positioning::delta_of_widget(other_widget, Alignment::Right)
    }

    /// At the same place as another widget.
    pub fn match_to(other_widget: &Widget) -> (p: Positioning)
        ensures
            p == Positioning::MatchWidget(other_widget.id),
    {
        Positioning::MatchWidget(other_widget.id)
    }

    /// The widget this positioning depends on, if any.
    pub fn depends_on(&self) -> (w: Option<Wid>)
        ensures
            w == positioning_dependency(*self),
    {
        match self {
            Positioning::DeltaOfWidget(wid, _) => Some(*wid),
            Positioning::MatchWidget(wid) => Some(*wid),
            _ => None,
        }
    }
}

impl Default for Positioning {
    /// The origin.
    fn default() -> (p: Positioning)
        ensures
            p == Positioning::Constant,
    {
        Positioning::origin()
    }
}

impl Sizing {
    /// The full size of the parent.
    pub fn match_parent() -> (s: Sizing)
        ensures
            s == Sizing::PcntOfParent,
    {
        Sizing::PcntOfParent
    }

    /// Just large enough to hold the children.
    pub fn surround_children() -> (s: Sizing)
        ensures
            s == Sizing::SurroundChildren,
    {
        Sizing::SurroundChildren
    }

    /// Derived from the widget's content.
    pub fn derived() -> (s: Sizing)
        ensures
            s == Sizing::Derived,
    {
        Sizing::Derived
    }
}

/// Whether a sizing makes a widget's size depend on its children.
pub open spec fn sizing_depends_on_children(s: Sizing) -> bool {
    s == Sizing::SurroundChildren
}

/// Whether a sizing makes a widget's size depend on its parent.
pub open spec fn sizing_depends_on_parent(s: Sizing) -> bool {
    match s {
        Sizing::DeltaOfParent | Sizing::PcntOfParent | Sizing::PcntOfParentAllowingLoop
        | Sizing::ExtendToParentEdge => true,
        _ => false,
    }
}

/// Whether a positioning makes a widget's position depend on its parent.
pub open spec fn positioning_depends_on_parent(p: Positioning) -> bool {
    match p {
        Positioning::PcntOfParent | Positioning::CenteredInParent => true,
        _ => false,
    }
}

/// The border of a widget: its width in pixels and the sides that are drawn.
#[derive(Clone, PartialEq, Eq, Structural, Debug)]
pub struct Border {
    pub width: u8,
    pub sides: BorderSides,
}

impl Default for Border {
    /// No width, all sides.
    fn default() -> (b: Border)
        ensures
            b.width == 0,
            b.sides.0 == 0xffu8,
    {
        Border { width: 0, sides: BorderSides::all() }
    }
}

/// What a widget shows: text in a font size, or a window with an optional image.
#[derive(Debug)]
pub enum WidgetType {
    Text { text: String, font_size: u32 },
    Window { image: Option<String>, segment: ImageSegmentation },
}

/// The mathematical value of a widget type.
pub enum WidgetTypeView {
    Text { text: Seq<char>, font_size: u32 },
    Window { image: Option<Seq<char>>, segment: ImageSegmentation },
}

/// The mathematical value of an optional string.
pub open spec fn opt_str_view(s: Option<String>) -> Option<Seq<char>> {
    match s {
        Some(t) => Some(t@),
        None => None,
    }
}

fn opt_string_copy(s: &Option<String>) -> (r: Option<String>)
    ensures
        opt_str_view(r) == opt_str_view(*s),
{
    match s {
        Some(t) => Some(t.clone()),
        None => None,
    }
}

fn opt_string_same(a: &Option<String>, b: &Option<String>) -> (r: bool)
    ensures
        r == (opt_str_view(*a) == opt_str_view(*b)),
{
    match (a, b) {
        (Some(x), Some(y)) => same_text(x, y),
        (None, None) => true,
        _ => false,
    }
}

impl View for WidgetType {
    type V = WidgetTypeView;

    open spec fn view(&self) -> WidgetTypeView {
        match self {
            WidgetType::Text { text, font_size } => WidgetTypeView::Text { text: text@, font_size: *font_size },
            WidgetType::Window { image, segment } => WidgetTypeView::Window {
                image: opt_str_view(*image),
                segment: *segment,
            },
        }
    }
}

impl WidgetType {
    /// Text in the given font size.
    pub fn text(text: String, font_size: u32) -> (t: WidgetType)
        ensures
            t@ == (WidgetTypeView::Text { text: text@, font_size }),
    {
        WidgetType::Text { text, font_size }
    }

    /// A window with no image and no segmentation.
    pub fn window() -> (t: WidgetType)
        ensures
            t@ == (WidgetTypeView::Window { image: None, segment: ImageSegmentation::Unsegmented }),
    {
        WidgetType::Window { image: None, segment: ImageSegmentation::Unsegmented }
    }

    /// A window showing the given image, unsegmented.
    pub fn image(image: String) -> (t: WidgetType)
        ensures
            t@ == (WidgetTypeView::Window { image: Some(image@), segment: ImageSegmentation::Unsegmented }),
    {
        WidgetType::Window { image: Some(image), segment: ImageSegmentation::Unsegmented }
    }

    /// Replaces the text of a text widget; a window is left unchanged.
    pub fn set_text(&mut self, text_in: String)
        ensures
            match old(self)@ {
                WidgetTypeView::Text { font_size, .. } => final(self)@ == (WidgetTypeView::Text {
                    text: text_in@,
                    font_size,
                }),
                _ => final(self)@ == old(self)@,
            },
    {
        match self {
            WidgetType::Text { text, .. } => *text = text_in,
            _ => (),
        };
    }

    /// Sets the font size of a text widget; a window is left unchanged.
    pub fn set_font_size(&mut self, size: u32)
        ensures
            match old(self)@ {
                WidgetTypeView::Text { text, .. } => final(self)@ == (WidgetTypeView::Text { text, font_size: size }),
                _ => final(self)@ == old(self)@,
            },
    {
        match self {
            WidgetType::Text { font_size, .. } => *font_size = size,
            _ => (),
        };
    }

    /// A copy of this widget type.
    pub fn duplicate(&self) -> (r: WidgetType)
        ensures
            r@ == self@,
    {
        match self {
            WidgetType::Text { text, font_size } => WidgetType::Text { text: text.clone(), font_size: *font_size },
            WidgetType::Window { image, segment } => WidgetType::Window {
                image: opt_string_copy(image),
                segment: *segment,
            },
        }
    }

    /// Whether two widget types are equal.
    pub fn same_as(&self, other: &WidgetType) -> (r: bool)
        ensures
            r == (self@ == other@),
    {
        match (self, other) {
            (WidgetType::Text { text: t1, font_size: f1 }, WidgetType::Text { text: t2, font_size: f2 }) =>
                *f1 == *f2 && same_text(t1, t2),
            (WidgetType::Window { image: i1, segment: s1 }, WidgetType::Window { image: i2, segment: s2 }) =>
                *s1 == *s2 && opt_string_same(i1, i2),
            _ => false,
        }
    }
}


/// The mathematical value of an optional widget state.
pub open spec fn opt_state_view(s: Option<WidgetState>) -> Option<WidgetStateView> {
    match s {
        Some(t) => Some(t@),
        None => None,
    }
}

/// A widget: what it shows, where it sits in the tree, how it is sized and placed,
/// which events it consumes and which callbacks it carries.
#[derive(Debug)]
pub struct Widget {
    pub name: Option<String>,
    pub callbacks: Vec<WidgetCallbackRef>,
    pub id: Wid,
    pub parent_id: Option<Wid>,
    pub widget_type: WidgetType,
    pub size: [Sizing; 2],
    pub position: [Positioning; 2],
    pub alignment: [Alignment; 2],
    pub border: Border,
    pub showing: bool,
    pub accepts_focus: bool,
    pub ignores_parent_bounds: bool,
    pub draw_layer: GUILayer,
    pub state_override: Option<WidgetState>,
    pub event_consumption: EventConsumption,
    pub tooltip: Option<String>,
}

/// The mathematical value of a widget.
pub struct WidgetView {
    pub name: Option<Seq<char>>,
    pub callbacks: Seq<WidgetCallbackRef>,
    pub id: Wid,
    pub parent_id: Option<Wid>,
    pub widget_type: WidgetTypeView,
    pub size: (Sizing, Sizing),
    pub position: (Positioning, Positioning),
    pub alignment: (Alignment, Alignment),
    pub border: Border,
    pub showing: bool,
    pub accepts_focus: bool,
    pub ignores_parent_bounds: bool,
    pub draw_layer: GUILayer,
    pub state_override: Option<WidgetStateView>,
    pub event_consumption: EventConsumption,
    pub tooltip: Option<Seq<char>>,
}

impl View for Widget {
    type V = WidgetView;

    open spec fn view(&self) -> WidgetView {
        WidgetView {
            name: opt_str_view(self.name),
            callbacks: self.callbacks@,
            id: self.id,
            parent_id: self.parent_id,
            widget_type: self.widget_type@,
            size: (self.size[0], self.size[1]),
            position: (self.position[0], self.position[1]),
            alignment: (self.alignment[0], self.alignment[1]),
            border: self.border,
            showing: self.showing,
            accepts_focus: self.accepts_focus,
            ignores_parent_bounds: self.ignores_parent_bounds,
            draw_layer: self.draw_layer,
            state_override: opt_state_view(self.state_override),
            event_consumption: self.event_consumption,
            tooltip: opt_str_view(self.tooltip),
        }
    }
}

/// Whether a widget's size depends on its children on either axis.
pub open spec fn view_dependent_on_children(w: WidgetView) -> bool {
    sizing_depends_on_children(w.size.0) || sizing_depends_on_children(w.size.1)
}

fn same_callbacks(a: &Vec<WidgetCallbackRef>, b: &Vec<WidgetCallbackRef>) -> (r: bool)
    ensures
        r == (a@ == b@),
{
    if a.len() != b.len() {
        return false;
    }
    let mut i: usize = 0;
    while i < a.len()
        invariant
            a.len() == b.len(),
            i <= a.len(),
            forall|j: int| 0 <= j < i ==> a@[j] == b@[j],
        decreases a.len() - i,
    {
        if a[i] != b[i] {
            return false;
        }
        i = i + 1;
    }
    assert(a@ =~= b@);
    true
}

fn copy_callbacks(a: &Vec<WidgetCallbackRef>) -> (r: Vec<WidgetCallbackRef>)
    ensures
        r@ == a@,
{
    let mut r: Vec<WidgetCallbackRef> = Vec::new();
    let mut i: usize = 0;
    while i < a.len()
        invariant
            i <= a.len(),
            r@ == a@.subrange(0, i as int),
        decreases a.len() - i,
    {
        r.push(a[i]);
        i = i + 1;
    }
    r
}

fn same_consumption(a: &EventConsumption, b: &EventConsumption) -> (r: bool)
    ensures
        r == (*a == *b),
    decreases a,
{
    match (a, b) {
        (EventConsumption::EventTypes(x), EventConsumption::EventTypes(y)) => *x == *y,
        (EventConsumption::Key(x), EventConsumption::Key(y)) => *x == *y,
        (EventConsumption::Compound(a1, a2), EventConsumption::Compound(b1, b2)) =>
            same_consumption(&**a1, &**b1) && same_consumption(&**a2, &**b2),
        _ => false,
    }
}

fn opt_state_copy(s: &Option<WidgetState>) -> (r: Option<WidgetState>)
    ensures
        opt_state_view(r) == opt_state_view(*s),
{
    match s {
        Some(t) => Some(t.duplicate()),
        None => None,
    }
}

fn opt_state_same(a: &Option<WidgetState>, b: &Option<WidgetState>) -> (r: bool)
    ensures
        r == (opt_state_view(*a) == opt_state_view(*b)),
{
    match (a, b) {
        (Some(x), Some(y)) => x.same_as(y),
        (None, None) => true,
        _ => false,
    }
}

impl Widget {
    /// A shown, unregistered widget of the given type: constant size, placed at the
    /// origin, anchored left and top, default border, main layer, no callbacks,
    /// consuming nothing.
    pub fn new(widget_type: WidgetType) -> (w: Widget)
        ensures
            w@.widget_type == widget_type@,
            w@.id.0 == 0,
            w@.parent_id.is_none(),
            w@.name.is_none(),
            w@.callbacks.len() == 0,
            w@.size == (Sizing::Constant, Sizing::Constant),
            w@.position == (Positioning::Constant, Positioning::Constant),
            w@.alignment == (Alignment::Left, Alignment::Top),
            w@.border == (Border { width: 0, sides: BorderSides(0xffu8) }),
            w@.showing,
            !w@.accepts_focus,
            !w@.ignores_parent_bounds,
            w@.draw_layer == GUILayer::Main,
            w@.state_override.is_none(),
            w@.event_consumption == EventConsumption::EventTypes(0u32),
            w@.tooltip.is_none(),
    {
        Widget {
            id: no_wid(),
            parent_id: None,
            widget_type,
            size: [Sizing::Constant, Sizing::Constant],
            position: [Positioning::Constant, Positioning::Constant],
            alignment: [Alignment::Left, Alignment::Top],
            border: Border::default(),
            showing: true,
            state_override: None,
            callbacks: Vec::new(),
            event_consumption: EventConsumption::none(),
            accepts_focus: false,
            ignores_parent_bounds: false,
            name: None,
            draw_layer: GUILayer::Main,
            tooltip: None,
        }
    }

    /// A copy of this widget.
    pub fn duplicate(&self) -> (r: Widget)
        ensures
            r@ == self@,
    {
        Widget {
            name: opt_string_copy(&self.name),
            callbacks: copy_callbacks(&self.callbacks),
            id: self.id,
            parent_id: self.parent_id,
            widget_type: self.widget_type.duplicate(),
            size: [self.size[0], self.size[1]],
            position: [self.position[0], self.position[1]],
            alignment: [self.alignment[0], self.alignment[1]],
            border: Border { width: self.border.width, sides: BorderSides(self.border.sides.0) },
            showing: self.showing,
            accepts_focus: self.accepts_focus,
            ignores_parent_bounds: self.ignores_parent_bounds,
            draw_layer: self.draw_layer,
            state_override: opt_state_copy(&self.state_override),
            event_consumption: self.event_consumption.duplicate(),
            tooltip: opt_string_copy(&self.tooltip),
        }
    }

    /// Whether two widgets are equal in every field.
    pub fn same_as(&self, other: &Widget) -> (r: bool)
        ensures
            r == (self@ == other@),
    {
        opt_string_same(&self.name, &other.name) && same_callbacks(&self.callbacks, &other.callbacks)
            && self.id == other.id && self.parent_id == other.parent_id
            && self.widget_type.same_as(&other.widget_type) && self.size[0] == other.size[0]
            && self.size[1] == other.size[1] && self.position[0] == other.position[0]
            && self.position[1] == other.position[1] && self.alignment[0] == other.alignment[0]
            && self.alignment[1] == other.alignment[1] && self.border.width == other.border.width
            && self.border.sides.0 == other.border.sides.0 && self.showing == other.showing
            && self.accepts_focus == other.accepts_focus
            && self.ignores_parent_bounds == other.ignores_parent_bounds
            && self.draw_layer == other.draw_layer
            && opt_state_same(&self.state_override, &other.state_override)
            && same_consumption(&self.event_consumption, &other.event_consumption)
            && opt_string_same(&self.tooltip, &other.tooltip)
    }

    /// The widget's identifier.
    pub fn id(&self) -> (w: Wid)
        ensures
            w == self.id,
    {
        self.id
    }

    /// Whether the widget has been given an identifier.
    pub fn has_id(&self) -> (b: bool)
        ensures
            b == (self.id.0 != 0),
    {
        self.id.0 != 0
    }

    /// Gives the widget an identifier.
    pub fn set_id(&mut self, wid: Wid)
        ensures
            final(self)@ == (WidgetView { id: wid, ..old(self)@ }),
    {
        self.id = wid;
    }

    /// Takes the widget's identifier away.
    pub fn clear_id(&mut self)
        ensures
            final(self)@ == (WidgetView { id: Wid(0), ..old(self)@ }),
    {
        self.set_id(no_wid());
    }

    /// Whether the widget's size depends on its children on either axis.
    pub fn dependent_on_children(&self) -> (b: bool)
        ensures
            b == view_dependent_on_children(self@),
    {
        Widget::sizing_dependent_on_children(self.size[0]) || Widget::sizing_dependent_on_children(self.size[1])
    }

    /// Whether a sizing depends on the children.
    pub fn sizing_dependent_on_children(sizing: Sizing) -> (b: bool)
        ensures
            b == sizing_depends_on_children(sizing),
    {
        match sizing {
            Sizing::SurroundChildren => true,
            _ => false,
        }
    }

    /// Whether a sizing depends on the parent.
    pub fn parent_based_size(sizing: Sizing) -> (b: bool)
        ensures
            b == sizing_depends_on_parent(sizing),
    {
        match sizing {
            Sizing::Constant => false,
            Sizing::Derived => false,
            Sizing::DeltaOfParent => true,
            Sizing::PcntOfParent => true,
            Sizing::PcntOfParentAllowingLoop => true,
            Sizing::ExtendToParentEdge => true,
            Sizing::SurroundChildren => false,
        }
    }

    /// Whether a positioning depends on the parent.
    pub fn parent_based_pos(pos: Positioning) -> (b: bool)
        ensures
            b == positioning_depends_on_parent(pos),
    {
        match pos {
            Positioning::PcntOfParent => true,
            Positioning::CenteredInParent => true,
            Positioning::Constant => false,
            Positioning::DeltaOfWidget(_, _) => false,
            Positioning::MatchWidget(_) => false,
            Positioning::Absolute => false,
        }
    }

    /// Adds a reference to the registered callback `callback_id`, inherent or not.
    pub fn add_callback(&mut self, callback_id: u32, inherent: bool)
        ensures
            final(self)@ == (WidgetView {
                callbacks: old(self)@.callbacks.push(WidgetCallbackRef::new_spec(callback_id, inherent)),
                ..old(self)@
            }),
    {
        self.callbacks.push(WidgetCallbackRef::new(callback_id, inherent));
    }

    /// Drops every callback that is not inherent to the widget.
    pub fn clear_callbacks(&mut self)
        ensures
            final(self)@ == (WidgetView {
                callbacks: old(self)@.callbacks.filter(|c: WidgetCallbackRef| c.spec_is_inherent()),
                ..old(self)@
            }),
    {
        let mut kept: Vec<WidgetCallbackRef> = Vec::new();
        let mut i: usize = 0;
        let ghost pred = |c: WidgetCallbackRef| c.spec_is_inherent();
        while i < self.callbacks.len()
            invariant
                i <= self.callbacks.len(),
                pred == (|c: WidgetCallbackRef| c.spec_is_inherent()),
                kept@ == self.callbacks@.subrange(0, i as int).filter(pred),
            decreases self.callbacks.len() - i,
        {
            let c = self.callbacks[i];
            if c.is_inherent() {
                kept.push(c);
            }
            proof {
                let s = self.callbacks@.subrange(0, i as int + 1);
                assert(s.drop_last() =~= self.callbacks@.subrange(0, i as int));
                reveal_with_fuel(Seq::<WidgetCallbackRef>::filter, 2);
            }
            i = i + 1;
        }
        assert(self.callbacks@.subrange(0, i as int) =~= self.callbacks@);
        self.callbacks = kept;
    }

    /// Whether the widget is consistent: its horizontal anchor is left or right,
    /// its vertical anchor top or bottom, and if it takes focus it consumes the
    /// mouse releases that give it focus.
    pub fn validate(&self) -> (b: bool)
        ensures
            b == !(self@.alignment.0 == Alignment::Top || self@.alignment.0 == Alignment::Bottom
                || self@.alignment.1 == Alignment::Left || self@.alignment.1 == Alignment::Right
                || (self@.accepts_focus && !consumes(
                self@.event_consumption,
                UIEvent::MouseRelease { button: MouseButton::Left },
            ))),
    {
        if self.alignment[0] == Alignment::Top || self.alignment[0] == Alignment::Bottom
            || self.alignment[1] == Alignment::Left || self.alignment[1] == Alignment::Right {
            return false;
        }
        if self.accepts_focus && !self.event_consumption.consumes_event(
            &UIEvent::MouseRelease { button: MouseButton::Left },
        ) {
            return false;
        }
        true
    }

    /// The widgets this widget's position depends on, x axis first.
    pub fn depends_on(&self) -> (v: Vec<Wid>)
        ensures
            v@ == seq![positioning_dependency(self@.position.0), positioning_dependency(self@.position.1)].filter(
                |o: Option<Wid>| o.is_some(),
            ).map_values(|o: Option<Wid>| o.unwrap()),
    {
        let mut ret: Vec<Wid> = Vec::new();
        let a = self.position[0].depends_on();
        let b = self.position[1].depends_on();
        if let Some(d) = a {
            ret.push(d);
        }
        if let Some(d) = b {
            ret.push(d);
        }
        proof {
            reveal_with_fuel(Seq::<Option<Wid>>::filter, 3);
        }
        ret
    }

    /// Anchors the widget; when the horizontal anchor names a vertical side and the
    /// vertical anchor a horizontal one, the two are swapped.
    pub fn set_alignment(&mut self, x: Alignment, y: Alignment)
        ensures
            ((x == Alignment::Top || x == Alignment::Bottom) && (y == Alignment::Left || y == Alignment::Right))
                ==> final(self)@ == (WidgetView { alignment: (y, x), ..old(self)@ }),
            !((x == Alignment::Top || x == Alignment::Bottom) && (y == Alignment::Left || y == Alignment::Right))
                ==> final(self)@ == (WidgetView { alignment: (x, y), ..old(self)@ }),
    {
        if (x == Alignment::Top || x == Alignment::Bottom) && (y == Alignment::Left || y == Alignment::Right) {
            self.alignment = [y, x];
        } else {
            self.alignment = [x, y];
        }
    }
}

impl WidgetCallbackRef {
    /// The reference `new` builds.
    pub open spec fn new_spec(id: u32, inherent: bool) -> WidgetCallbackRef {
        if inherent {
            WidgetCallbackRef(id | inherent_bit())
        } else {
            WidgetCallbackRef(id & callback_id_mask())
        }
    }
}

/// Builders: each takes the widget and hands it back with one part changed.
impl Widget {
    /// The widget with a name.
    pub fn named(self, name: String) -> (r: Widget)
        ensures
            r@ == (WidgetView { name: Some(name@), ..self@ }),
    {
        let mut w = self;
        w.name = Some(name);
        w
    }

    /// The widget drawn on the given layer.
    pub fn draw_layer(self, layer: GUILayer) -> (r: Widget)
        ensures
            r@ == (WidgetView { draw_layer: layer, ..self@ }),
    {
        let mut w = self;
        w.draw_layer = layer;
        w
    }

    /// The widget placed by `x` and `y`.
    pub fn position(self, x: Positioning, y: Positioning) -> (r: Widget)
        ensures
            r@ == (WidgetView { position: (x, y), ..self@ }),
    {
        let mut w = self;
        w.position = [x, y];
        w
    }

    /// The widget placed by `x` horizontally.
    pub fn x(self, x: Positioning) -> (r: Widget)
        ensures
            r@ == (WidgetView { position: (x, self@.position.1), ..self@ }),
    {
        let mut w = self;
        w.position[0] = x;
        w
    }

    /// The widget placed by `y` vertically.
    pub fn y(self, y: Positioning) -> (r: Widget)
        ensures
            r@ == (WidgetView { position: (self@.position.0, y), ..self@ }),
    {
        let mut w = self;
        w.position[1] = y;
        w
    }

    /// The widget centred in its parent on both axes.
    pub fn centered(self) -> (r: Widget)
        ensures
            r@ == (WidgetView { position: (Positioning::CenteredInParent, Positioning::CenteredInParent), ..self@ }),
    {
        self.position(Positioning::centered(), Positioning::centered())
    }

    /// The widget sized by `w` and `h`.
    pub fn size(self, w: Sizing, h: Sizing) -> (r: Widget)
        ensures
            r@ == (WidgetView { size: (w, h), ..self@ }),
    {
        let mut s = self;
        s.size = [w, h];
        s
    }

    /// The widget sized by `w` horizontally.
    pub fn width(self, w: Sizing) -> (r: Widget)
        ensures
            r@ == (WidgetView { size: (w, self@.size.1), ..self@ }),
    {
        let mut s = self;
        s.size[0] = w;
        s
    }

    /// The widget sized by `h` vertically.
    pub fn height(self, h: Sizing) -> (r: Widget)
        ensures
            r@ == (WidgetView { size: (self@.size.0, h), ..self@ }),
    {
        let mut s = self;
        s.size[1] = h;
        s
    }

    /// The widget sized to surround its children on both axes.
    pub fn surround_children(self) -> (r: Widget)
        ensures
            r@ == (WidgetView { size: (Sizing::SurroundChildren, Sizing::SurroundChildren), ..self@ }),
    {
        self.size(Sizing::surround_children(), Sizing::surround_children())
    }

    /// Sets the widget's parent.
    pub fn set_parent_id(&mut self, parent_id: Wid)
        ensures
            final(self)@ == (WidgetView { parent_id: Some(parent_id), ..old(self)@ }),
    {
        self.parent_id = Some(parent_id);
    }

    /// The widget under widget `p`.
    pub fn parent(self, p: &Widget) -> (r: Widget)
        ensures
            r@ == (WidgetView { parent_id: Some(p@.id), ..self@ }),
    {
        let mut w = self;
        w.set_parent_id(p.id);
        w
    }

    /// The widget shown or hidden.
    pub fn showing(self, showing: bool) -> (r: Widget)
        ensures
            r@ == (WidgetView { showing, ..self@ }),
    {
        let mut w = self;
        w.showing = showing;
        w
    }

    /// The widget free to draw outside its parent's bounds.
    pub fn ignore_parent_bounds(self) -> (r: Widget)
        ensures
            r@ == (WidgetView { ignores_parent_bounds: true, ..self@ }),
    {
        let mut w = self;
        w.ignores_parent_bounds = true;
        w
    }

    /// The widget with the given border width.
    pub fn border_width(self, border_width: u8) -> (r: Widget)
        ensures
            r@ == (WidgetView { border: Border { width: border_width, sides: self@.border.sides }, ..self@ }),
    {
        let mut w = self;
        w.border.width = border_width;
        w
    }

    /// The widget with a border on the given sides.
    pub fn border_sides(self, border_sides: BorderSides) -> (r: Widget)
        ensures
            r@ == (WidgetView { border: Border { width: self@.border.width, sides: border_sides }, ..self@ }),
    {
        let mut w = self;
        w.border.sides = border_sides;
        w
    }

    /// The widget consuming exactly what `consumption` consumes.
    pub fn only_consume(self, consumption: EventConsumption) -> (r: Widget)
        ensures
            r@ == (WidgetView { event_consumption: consumption, ..self@ }),
    {
        let mut w = self;
        w.event_consumption = consumption;
        w
    }

    /// The widget consuming what it consumed and what `consumption` consumes.
    pub fn and_consume(self, consumption: EventConsumption) -> (r: Widget)
        ensures
            (match (self@.event_consumption, consumption) {
                (EventConsumption::EventTypes(a), EventConsumption::EventTypes(b)) =>
                    r@.event_consumption == EventConsumption::EventTypes(a | b),
                _ => r@.event_consumption == EventConsumption::Compound(
                    Box::new(self@.event_consumption),
                    Box::new(consumption),
                ),
            }),
            r@ == (WidgetView { event_consumption: r@.event_consumption, ..self@ }),
            forall|e: UIEvent| #[trigger] consumes(r@.event_consumption, e) == (consumes(self@.event_consumption, e)
                || consumes(consumption, e)),
    {
        let mut w = self;
        let c = w.event_consumption.and(&consumption);
        w.event_consumption = c;
        w
    }

    /// The widget taking focus on a mouse release, or not.
    pub fn accepts_focus(self, accept: bool) -> (r: Widget)
        ensures
            r@ == (WidgetView { accepts_focus: accept, ..self@ }),
    {
        let mut w = self;
        w.accepts_focus = accept;
        w
    }

    /// The widget with a tooltip.
    pub fn with_tooltip(self, tooltip: String) -> (r: Widget)
        ensures
            r@ == (WidgetView { tooltip: Some(tooltip@), ..self@ }),
    {
        let mut w = self;
        w.tooltip = Some(tooltip);
        w
    }

    /// The widget anchored to its parent's right side.
    pub fn align_right(self) -> (r: Widget)
        ensures
            r@ == (WidgetView { alignment: (Alignment::Right, self@.alignment.1), ..self@ }),
    {
        let mut w = self;
        w.alignment[0] = Alignment::Right;
        w
    }

    /// The widget anchored to its parent's bottom side.
    pub fn align_bottom(self) -> (r: Widget)
        ensures
            r@ == (WidgetView { alignment: (self@.alignment.0, Alignment::Bottom), ..self@ }),
    {
        let mut w = self;
        w.alignment[1] = Alignment::Bottom;
        w
    }

    /// The widget anchored by `x` and `y`, swapped when `x` names a vertical side and
    /// `y` a horizontal one.
    pub fn alignment(self, x: Alignment, y: Alignment) -> (r: Widget)
        ensures
            ((x == Alignment::Top || x == Alignment::Bottom) && (y == Alignment::Left || y == Alignment::Right))
                ==> r@ == (WidgetView { alignment: (y, x), ..self@ }),
            !((x == Alignment::Top || x == Alignment::Bottom) && (y == Alignment::Left || y == Alignment::Right))
                ==> r@ == (WidgetView { alignment: (x, y), ..self@ }),
    {
        let mut w = self;
        w.set_alignment(x, y);
        w
    }

    /// The widget of another type.
    pub fn widget_type(self, widget_type: WidgetType) -> (r: Widget)
        ensures
            r@ == (WidgetView { widget_type: widget_type@, ..self@ }),
    {
        let mut w = self;
        w.widget_type = widget_type;
        w
    }

    /// The widget with the callback of identifier `callback_id` added.
    pub fn with_callback(self, callback_id: u32) -> (r: Widget)
        ensures
            r@ == (WidgetView {
                callbacks: self@.callbacks.push(WidgetCallbackRef::new_spec(callback_id, false)),
                ..self@
            }),
    {
        let mut w = self;
        w.add_callback(callback_id, false);
        w
    }

    /// The widget with the inherent callback of identifier `callback_id` added, which
    /// clearing the callbacks keeps.
    pub fn with_inherent_callback(self, callback_id: u32) -> (r: Widget)
        ensures
            r@ == (WidgetView {
                callbacks: self@.callbacks.push(WidgetCallbackRef::new_spec(callback_id, true)),
                ..self@
            }),
    {
        let mut w = self;
        w.add_callback(callback_id, true);
        w
    }

    /// The widget without its listener callbacks.
    pub fn with_cleared_callbacks(self) -> (r: Widget)
        ensures
            r@ == (WidgetView {
                callbacks: self@.callbacks.filter(|c: WidgetCallbackRef| c.spec_is_inherent()),
                ..self@
            }),
    {
        let mut w = self;
        w.clear_callbacks();
        w
    }
}

} // verus!
