use vstd::prelude::*;
use crate::geometry::{all_vertices_ok, Vertex};

verus! {

/// What every entity of the plane offers: a position, a size and the
/// polygon that collision tests probe.
pub trait Object {
    /// The entity's internal bounds hold.
    spec fn well_formed(&self) -> bool;

    /// The entity's polygon, computed from its position and size.
    spec fn shape(&self) -> Seq<Vertex>;

    /// The entity's position.
    spec fn position(&self) -> (int, int);

    /// The entity's size.
    spec fn extent(&self) -> int;

    proof fn lemma_shape_ok(&self)
        requires
            self.well_formed(),
        ensures
            all_vertices_ok(self.shape()),
    ;

    fn get_vertices(&self) -> (r: Vec<Vertex>)
        requires
            self.well_formed(),
        ensures
            r@ == self.shape(),
    ;

    fn get_size(&self) -> (r: i64)
        ensures
            r as int == self.extent(),
    ;

    fn get_pos(&self) -> (r: (i64, i64))
        ensures
            (r.0 as int, r.1 as int) == self.position(),
    ;
}

} // verus!
