use vstd::prelude::*;

verus! {

/// How much an item is worth, on a scale where the named levels are ten apart.
#[derive(Clone, Copy, PartialEq, Eq, PartialOrd, Ord, Debug)]
pub struct Worth(pub i32);

/// The value of the lowest named level of worth.
pub const WORTHLESS: i32 = 10;
/// The value of the low level of worth.
pub const LOW: i32 = 20;
/// The value of the medium level of worth.
pub const MEDIUM: i32 = 30;
/// The value of the high level of worth.
pub const HIGH: i32 = 40;
/// The value of the highest named level of worth.
pub const VERY_HIGH: i32 = 50;
/// The top of the worth scale, against which worth is mapped onto other ranges.
pub const MAX_WORTH: i32 = 100;

impl Worth {
    /// Worthless, shifted by `dv`.
    pub fn worthless(dv: i32) -> (w: Worth)
        requires
            WORTHLESS + dv <= i32::MAX,
        ensures
            w.0 == WORTHLESS + dv,
    {
        Worth(WORTHLESS + dv)
    }

    /// Of low worth, shifted by `dv`.
    pub fn low(dv: i32) -> (w: Worth)
        requires
            LOW + dv <= i32::MAX,
        ensures
            w.0 == LOW + dv,
    {
        Worth(LOW + dv)
    }

    /// Of medium worth, shifted by `dv`.
    pub fn medium(dv: i32) -> (w: Worth)
        requires
            MEDIUM + dv <= i32::MAX,
        ensures
            w.0 == MEDIUM + dv,
    {
        Worth(MEDIUM + dv)
    }

    /// Of high worth, shifted by `dv`.
    pub fn high(dv: i32) -> (w: Worth)
        requires
            HIGH + dv <= i32::MAX,
        ensures
            w.0 == HIGH + dv,
    {
        Worth(HIGH + dv)
    }

    /// Of very high worth, shifted by `dv`.
    pub fn very_high(dv: i32) -> (w: Worth)
        requires
            VERY_HIGH + dv <= i32::MAX,
        ensures
            w.0 == VERY_HIGH + dv,
    {
        Worth(VERY_HIGH + dv)
    }
}

/// The worth an item has before anything alters it.
#[derive(Clone, Copy, PartialEq, Eq, Debug)]
pub struct WorthData {
    pub base_worth: Worth,
}

impl WorthData {
    /// Worth data with the given base worth.
    pub fn new(worth: Worth) -> (d: WorthData)
        ensures
            d.base_worth == worth,
    {
        WorthData { base_worth: worth }
    }
}

impl Default for WorthData {
    /// Worthless, unshifted.
    fn default() -> (d: WorthData)
        ensures
            d.base_worth.0 == WORTHLESS,
    {
        WorthData { base_worth: Worth::worthless(0) }
    }
}

/// Each named level of worth, with the same shift, is worth more than the one below.
pub proof fn lemma_worth_levels_ordered(dv: i32)
    ensures
        WORTHLESS + dv < LOW + dv,
        LOW + dv < MEDIUM + dv,
        MEDIUM + dv < HIGH + dv,
        HIGH + dv < VERY_HIGH + dv,
        VERY_HIGH + dv < MAX_WORTH + dv,
{
}

} // verus!
