use vstd::prelude::*;

pub mod animation_graph;
pub mod camera;
pub mod debug;
pub mod input;
pub mod locomotion;
pub mod keyed;
pub mod player;
pub mod terrain;
pub mod ui;

verus! {

} // verus!
