//! Widget-tree and game-rule core of the arx GUI and the samvival data model,
//! with contracts checked by Verus.
use vstd::prelude::*;

pub mod widgets;
pub mod events;
pub mod gui;
pub mod compound;
pub mod item;
pub mod skill;
pub mod attributes;
pub mod tactics;
pub mod taxonomy;

verus! {

} // verus!

