use vstd::prelude::*;
use std::collections::HashMap;
use std::ops::Add;
use std::ops::Sub;
use vstd::std_specs::ops::AddSpecImpl;
use vstd::std_specs::ops::SubSpecImpl;

verus! {

broadcast use vstd::std_specs::hash::group_hash_axioms;

/// How an attribute's amount is read.
#[derive(Clone, Copy, PartialEq, Eq, Structural, Debug)]
pub enum ValueType {
    /// Present (1) or absent (0).
    Boolean,
    /// Any amount.
    Numeric,
    /// An amount with an optional lower and upper bound.
    BoundedNumeric(Option<i32>, Option<i32>),
}

/// How two amounts of one attribute combine.
#[derive(Clone, Copy, PartialEq, Eq, Structural, Debug)]
pub enum Combination {
    Replace,
    Additive,
    Maximal,
    Minimal,
}

/// The kinds of attribute an entity can carry.
#[derive(Clone, Copy, PartialEq, Eq, Structural, Debug)]
pub enum AttributeType {
    /// The placeholder for an attribute that could not be found.
    Sentinel,
    /// A weapon better suited to practice than to combat.
    TrainingWeapon,
}

/// The position of an attribute kind in the list of all kinds.
pub open spec fn attribute_index(t: AttributeType) -> u32 {
    match t {
        AttributeType::Sentinel => 0,
        AttributeType::TrainingWeapon => 1,
    }
}

/// The name of an attribute kind, by which it is found.
pub open spec fn attribute_name(t: AttributeType) -> Seq<char> {
    match t {
        AttributeType::Sentinel => "default"@,
        AttributeType::TrainingWeapon => "training weapons"@,
    }
}

/// The description of an attribute kind for players.
pub open spec fn attribute_description(t: AttributeType) -> Seq<char> {
    match t {
        AttributeType::Sentinel => "default attribute, indicates that something couldn't be found"@,
        AttributeType::TrainingWeapon => "this weapon is more suitable for practice than actual combat. It doesn't do much damage but it provides an experience bonus when used."@,
    }
}

/// How an attribute kind's amount is read.
pub open spec fn attribute_value_type(t: AttributeType) -> ValueType {
    match t {
        AttributeType::Sentinel => ValueType::Boolean,
        AttributeType::TrainingWeapon => ValueType::BoundedNumeric(None, Some(3)),
    }
}

/// How amounts of an attribute kind combine.
pub open spec fn attribute_combination(t: AttributeType) -> Combination {
    match t {
        AttributeType::Sentinel => Combination::Replace,
        AttributeType::TrainingWeapon => Combination::Additive,
    }
}

impl AttributeType {
    /// The position of this kind in the list of all kinds.
    pub fn index(&self) -> (i: u32)
        ensures
            i == attribute_index(*self),
    {
        match self {
            AttributeType::Sentinel => 0,
            AttributeType::TrainingWeapon => 1,
        }
    }

    /// The name by which this kind is found.
    pub fn name(&self) -> (r: &'static str)
        ensures
            r@ == attribute_name(*self),
    {
        match self {
            AttributeType::Sentinel => "default",
            AttributeType::TrainingWeapon => "training weapons",
        }
    }

    /// A description of this kind for players.
    pub fn description(&self) -> (r: &'static str)
        ensures
            r@ == attribute_description(*self),
    {
        match self {
            AttributeType::Sentinel => "default attribute, indicates that something couldn't be found",
            AttributeType::TrainingWeapon => "this weapon is more suitable for practice than actual combat. It doesn't do much damage but it provides an experience bonus when used.",
        }
    }

    /// How this kind's amount is read.
    pub fn value_type(&self) -> (v: ValueType)
        ensures
            v == attribute_value_type(*self),
    {
        match self {
            AttributeType::Sentinel => ValueType::Boolean,
            AttributeType::TrainingWeapon => ValueType::BoundedNumeric(None, Some(3)),
        }
    }

    /// How amounts of this kind combine.
    pub fn combination(&self) -> (c: Combination)
        ensures
            c == attribute_combination(*self),
    {
        match self {
            AttributeType::Sentinel => Combination::Replace,
            AttributeType::TrainingWeapon => Combination::Additive,
        }
    }

    /// Whether an attribute of this kind goes away when its amount reaches zero.
    pub fn remove_on_zero(&self) -> (b: bool)
        ensures
            b,
    {
        true
    }
}

/// Every attribute kind, in order.
pub fn all_attributes() -> (v: Vec<AttributeType>)
    ensures
        v@ == seq![AttributeType::Sentinel, AttributeType::TrainingWeapon],
{
    let mut v = Vec::new();
    v.push(AttributeType::Sentinel);
    v.push(AttributeType::TrainingWeapon);
    v
}

fn same_str(a: &str, b: &str) -> (r: bool)
    ensures
        r == (a@ == b@),
{
    let n = a.unicode_len();
    if n != b.unicode_len() {
        return false;
    }
    let mut i: usize = 0;
    while i < n
        invariant
            n == a@.len(),
            n == b@.len(),
            i <= n,
            forall|j: int| 0 <= j < i ==> a@[j] == b@[j],
        decreases n - i,
    {
        if a.get_char(i) != b.get_char(i) {
            return false;
        }
        i = i + 1;
    }
    assert(a@ =~= b@);
    true
}

/// The attribute kind with the given name; the placeholder kind when none has it.
/// Kinds have distinct names, so the only name that finds another kind than the
/// placeholder is that of the training weapon.
pub fn attribute_with_name(name: &str) -> (t: AttributeType)
    ensures
        name@ == attribute_name(AttributeType::TrainingWeapon) ==> t == AttributeType::TrainingWeapon,
        name@ != attribute_name(AttributeType::TrainingWeapon) ==> t == AttributeType::Sentinel,
{
    if same_str(AttributeType::TrainingWeapon.name(), name) {
        AttributeType::TrainingWeapon
    } else {
        AttributeType::Sentinel
    }
}

/// An amount after a kind's bounds are applied: the amount is first lowered to the
/// lower bound, if any, then raised to the upper bound, if any.
pub open spec fn bounded(v: ValueType, raw: int) -> int {
    match v {
        ValueType::Boolean => if raw > 0 { 1 } else { 0 },
        ValueType::Numeric => raw,
        ValueType::BoundedNumeric(lo, hi) => {
            let low = match lo {
                Some(l) => if raw < l { raw } else { l as int },
                None => raw,
            };
            match hi {
                Some(h) => if low > h { low } else { h as int },
                None => low,
            }
        },
    }
}

/// Two amounts of a kind combined, before its bounds apply.
pub open spec fn combined_raw(c: Combination, a: int, b: int) -> int {
    match c {
        Combination::Additive => a + b,
        Combination::Maximal => if a > b { a } else { b },
        Combination::Minimal => if a < b { a } else { b },
        Combination::Replace => b,
    }
}

/// An amount of a kind taken away from another, before its bounds apply.
pub open spec fn reduced_raw(c: Combination, a: int, b: int) -> int {
    match c {
        Combination::Additive => a - b,
        Combination::Maximal => if a < b { a } else { b },
        Combination::Minimal => if a > b { a } else { b },
        Combination::Replace => b,
    }
}

/// An amount of one attribute kind.
#[derive(Clone, Copy, PartialEq, Eq, Structural, Debug)]
pub struct AttributeValue(pub AttributeType, pub i32);

/// Two attribute values combined: values of different kinds leave the first as it
/// is; otherwise the kind's combination and bounds decide the amount.
pub open spec fn attribute_sum(a: AttributeValue, b: AttributeValue) -> AttributeValue {
    if a.0 != b.0 {
        a
    } else {
        AttributeValue(a.0, bounded(attribute_value_type(a.0), combined_raw(attribute_combination(a.0), a.1 as int, b.1 as int)) as i32)
    }
}

/// One attribute value taken away from another, in the same way.
pub open spec fn attribute_difference(a: AttributeValue, b: AttributeValue) -> AttributeValue {
    if a.0 != b.0 {
        a
    } else {
        AttributeValue(a.0, bounded(attribute_value_type(a.0), reduced_raw(attribute_combination(a.0), a.1 as int, b.1 as int)) as i32)
    }
}

fn apply_bounds(v: ValueType, raw: i32) -> (r: i32)
    ensures
        r == bounded(v, raw as int),
{
    match v {
        ValueType::Boolean => if raw > 0 { 1 } else { 0 },
        ValueType::Numeric => raw,
        ValueType::BoundedNumeric(lo, hi) => {
            let low = match lo {
                Some(l) => if raw < l { raw } else { l },
                None => raw,
            };
            match hi {
                Some(h) => if low > h { low } else { h },
                None => low,
            }
        },
    }
}

impl Add for AttributeValue {
    type Output = AttributeValue;

    fn add(self, rhs: AttributeValue) -> (r: AttributeValue) {
        if self.0 != rhs.0 {
            self
        } else {
            let a = self.1;
            let b = rhs.1;
            let raw = match self.0.combination() {
                Combination::Additive => a + b,
                Combination::Maximal => if a > b { a } else { b },
                Combination::Minimal => if a < b { a } else { b },
                Combination::Replace => b,
            };
            AttributeValue(self.0, apply_bounds(self.0.value_type(), raw))
        }
    }
}

impl AddSpecImpl for AttributeValue {
    open spec fn obeys_add_spec() -> bool {
        true
    }

    open spec fn add_req(self, rhs: AttributeValue) -> bool {
        self.0 == rhs.0 && attribute_combination(self.0) == Combination::Additive ==> i32::MIN <= self.1 + rhs.1 <= i32::MAX
    }

    open spec fn add_spec(self, rhs: AttributeValue) -> AttributeValue {
        attribute_sum(self, rhs)
    }
}

impl Sub for AttributeValue {
    type Output = AttributeValue;

    fn sub(self, rhs: AttributeValue) -> (r: AttributeValue) {
        if self.0 != rhs.0 {
            self
        } else {
            let a = self.1;
            let b = rhs.1;
            let raw = match self.0.combination() {
                Combination::Additive => a - b,
                Combination::Maximal => if a < b { a } else { b },
                Combination::Minimal => if a > b { a } else { b },
                Combination::Replace => b,
            };
            AttributeValue(self.0, apply_bounds(self.0.value_type(), raw))
        }
    }
}

impl SubSpecImpl for AttributeValue {
    open spec fn obeys_sub_spec() -> bool {
        true
    }

    open spec fn sub_req(self, rhs: AttributeValue) -> bool {
        self.0 == rhs.0 && attribute_combination(self.0) == Combination::Additive ==> i32::MIN <= self.1 - rhs.1 <= i32::MAX
    }

    open spec fn sub_spec(self, rhs: AttributeValue) -> AttributeValue {
        attribute_difference(self, rhs)
    }
}

impl Default for AttributeValue {
    /// No amount of the placeholder kind.
    fn default() -> (v: AttributeValue)
        ensures
            v == AttributeValue(AttributeType::Sentinel, 0),
    {
        AttributeValue(AttributeType::Sentinel, 0)
    }
}

/// The attribute amounts an entity carries, one per attribute kind.
#[derive(Debug)]
pub struct AttributeData {
    attributes: HashMap<u32, AttributeValue>,
}

/// The amount after `by` is added to an attribute of kind `t` holding `current`, if
/// any: a new attribute takes `by` as it is; an existing one combines as its kind
/// says.
pub open spec fn increased_amount(t: AttributeType, current: Option<i32>, by: i32) -> i32 {
    match current {
        Some(c) => attribute_sum(AttributeValue(t, c), AttributeValue(t, by)).1,
        None => by,
    }
}

impl View for AttributeData {
    type V = Map<AttributeType, i32>;

    closed spec fn view(&self) -> Map<AttributeType, i32> {
        Map::new(
            |t: AttributeType| self.attributes@.contains_key(attribute_index(t)),
            |t: AttributeType| self.attributes@[attribute_index(t)].1,
        )
    }
}

impl AttributeData {
    /// Each stored amount is filed under the position of its own kind.
    pub closed spec fn wf(&self) -> bool {
        forall|k: u32| #[trigger] self.attributes@.contains_key(k) ==> attribute_index(self.attributes@[k].0) == k
    }

    /// No attributes.
    pub fn new() -> (d: AttributeData)
        ensures
            d.wf(),
            d@ == Map::<AttributeType, i32>::empty(),
    {
        let d = AttributeData { attributes: HashMap::new() };
        d
    }

    /// The amount of attribute `for_attr`, if the entity carries it.
    pub fn value_for(&self, for_attr: AttributeType) -> (r: Option<i32>)
        ensures
            r == (if self@.contains_key(for_attr) { Some(self@[for_attr]) } else { None::<i32> }),
    {
        match self.attributes.get(&for_attr.index()) {
            Some(v) => Some(v.1),
            None => None,
        }
    }

    /// Adds `by` to attribute `attr`: a new attribute takes `by` as it is, an existing
    /// one combines with it as its kind says.
    pub fn increase_attribute(&mut self, attr: AttributeType, by: i32)
        requires
            old(self).wf(),
            old(self)@.contains_key(attr) && attribute_combination(attr) == Combination::Additive
                ==> i32::MIN <= old(self)@[attr] + by <= i32::MAX,
        ensures
            final(self).wf(),
            final(self)@ == old(self)@.insert(
                attr,
                increased_amount(
                    attr,
                    if old(self)@.contains_key(attr) { Some(old(self)@[attr]) } else { None::<i32> },
                    by,
                ),
            ),
    {
        let k = attr.index();
        let new_value = match self.attributes.get(&k) {
            Some(existing) => {
                *existing + AttributeValue(attr, by)
            },
            None => AttributeValue(attr, by),
        };
        self.attributes.insert(k, new_value);
        proof {
            let expected = old(self)@.insert(
                attr,
                increased_amount(
                    attr,
                    if old(self)@.contains_key(attr) { Some(old(self)@[attr]) } else { None::<i32> },
                    by,
                ),
            );
            assert forall|t: AttributeType| #![auto] self@.contains_key(t) == expected.contains_key(t) by {
                lemma_attribute_index_injective(t, attr);
            }
            assert forall|t: AttributeType| #![auto] self@.contains_key(t) implies self@[t] == expected[t] by {
                lemma_attribute_index_injective(t, attr);
            }
        }
    }

    /// Takes `by` away from attribute `attr`, by adding its negation.
    pub fn decrease_attribute(&mut self, attr: AttributeType, by: i32)
        requires
            old(self).wf(),
            by != i32::MIN,
            old(self)@.contains_key(attr) && attribute_combination(attr) == Combination::Additive
                ==> i32::MIN <= old(self)@[attr] - by <= i32::MAX,
        ensures
            final(self).wf(),
            final(self)@ == old(self)@.insert(
                attr,
                increased_amount(
                    attr,
                    if old(self)@.contains_key(attr) { Some(old(self)@[attr]) } else { None::<i32> },
                    -by as i32,
                ),
            ),
    {
        self.increase_attribute(attr, -by);
    }
}

impl Default for AttributeData {
    /// No attributes.
    fn default() -> (d: AttributeData)
        ensures
            d.wf(),
            d@ == Map::<AttributeType, i32>::empty(),
    {
        AttributeData::new()
    }
}

/// Combining two amounts of one kind gives an amount as the kind reads it: 0 or 1
/// for a flag, and for a bounded kind never below its upper bound, since that bound
/// raises the amount.
pub proof fn lemma_sum_respects_kind(a: AttributeValue, b: AttributeValue)
    requires
        a.0 == b.0,
        i32::MIN <= combined_raw(attribute_combination(a.0), a.1 as int, b.1 as int) <= i32::MAX,
        i32::MIN <= reduced_raw(attribute_combination(a.0), a.1 as int, b.1 as int) <= i32::MAX,
    ensures
        attribute_value_type(a.0) == ValueType::Boolean ==> (attribute_sum(a, b).1 == 0 || attribute_sum(a, b).1
            == 1) && (attribute_difference(a, b).1 == 0 || attribute_difference(a, b).1 == 1),
        attribute_value_type(a.0) matches ValueType::BoundedNumeric(_, Some(h)) ==> attribute_sum(a, b).1 >= h
            && attribute_difference(a, b).1 >= h,
{
}

/// Different attribute kinds have different positions.
pub proof fn lemma_attribute_index_injective(a: AttributeType, b: AttributeType)
    ensures
        attribute_index(a) == attribute_index(b) <==> a == b,
{
}

/// Taking an amount away undoes adding it, for a kind whose amounts add up, and
/// adding it back undoes taking it away.
pub proof fn lemma_additive_difference_undoes_sum(a: int, b: int)
    ensures
        reduced_raw(Combination::Additive, combined_raw(Combination::Additive, a, b), b) == a,
        combined_raw(Combination::Additive, reduced_raw(Combination::Additive, a, b), b) == a,
        reduced_raw(Combination::Additive, a, b) + b == a,
{
}

/// Amounts of the training weapon add and subtract as numbers, raised to the
/// weapon's bound of 3 when they fall below it; so taking away an amount just added
/// gives back an amount at or above the bound.
pub proof fn lemma_training_weapon_amounts(a: AttributeValue, b: AttributeValue)
    requires
        a.0 == AttributeType::TrainingWeapon,
        b.0 == AttributeType::TrainingWeapon,
        i32::MIN <= a.1 + b.1 <= i32::MAX,
        i32::MIN <= a.1 - b.1 <= i32::MAX,
    ensures
        attribute_difference(a, b).0 == AttributeType::TrainingWeapon,
        attribute_sum(a, b).0 == AttributeType::TrainingWeapon,
        a.1 - b.1 >= 3 ==> attribute_difference(a, b).1 == a.1 - b.1,
        a.1 - b.1 < 3 ==> attribute_difference(a, b).1 == 3,
        a.1 + b.1 >= 3 ==> attribute_sum(a, b).1 == a.1 + b.1,
        a.1 + b.1 < 3 ==> attribute_sum(a, b).1 == 3,
        a.1 >= 3 && a.1 + b.1 >= 3 ==> attribute_difference(attribute_sum(a, b), b) == a,
{
}

} // verus!
