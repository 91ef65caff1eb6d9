//! A world: an isometric map instance within a session.

use crate::vanject::{Vanject, VanjectModel};
use vstd::prelude::*;

verus! {

/// The mathematical value of a `World`.
#[verifier::ext_equal]
pub ghost struct WorldModel {
    pub id: u8,
    pub y_size: i16,
    pub vanjects: Seq<VanjectModel>,
}

/// A world within a session, created lazily on the first SET_WORLD naming
/// its id and kept for the session's lifetime.
#[derive(Debug)]
pub struct World {
    pub id: u8,
    pub y_size: i16,
    /// The objects placed directly in this world.
    pub vanjects: Vec<Vanject>,
}

impl View for World {
    type V = WorldModel;

    open spec fn view(&self) -> WorldModel {
        WorldModel { id: self.id, y_size: self.y_size, vanjects: self.vanjects.deep_view() }
    }
}

impl DeepView for World {
    type V = WorldModel;

    open spec fn deep_view(&self) -> WorldModel {
        self.view()
    }
}

impl World {
    /// A fresh, empty world.
    pub fn new(id: u8, y_size: i16) -> (r: Self)
        ensures
            r@.id == id,
            r@.y_size == y_size,
            r@.vanjects.len() == 0,
    {
        Self { id, y_size, vanjects: Vec::new() }
    }
}

} // verus!
