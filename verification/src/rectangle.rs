//! Rectangles, and whether one fits inside another.

use vstd::prelude::*;

verus! {

/// A rectangle with sides parallel to the axes.
#[derive(Debug)]
pub struct Rectangle {
    pub width: u32,
    pub height: u32,
}

impl Rectangle {
    /// `self` is strictly wider and strictly taller than `other`.
    pub open spec fn holds(self, other: Rectangle) -> bool {
        self.width > other.width && self.height > other.height
    }

    /// Decides whether `other` fits inside `self` with room to spare on
    /// both sides.
    pub fn can_hold(&self, other: Rectangle) -> (fits: bool)
        ensures
            fits == self.holds(other),
    {
        self.width > other.width && self.height > other.height
    }
}

/// No rectangle holds itself, and of two rectangles at most one holds the
/// other.
pub proof fn lemma_holds_is_strict(a: Rectangle, b: Rectangle)
    ensures
        !a.holds(a),
        a.holds(b) ==> !b.holds(a),
{
}

/// A rectangle holds whatever fits in a rectangle that it holds.
pub proof fn lemma_holds_is_transitive(a: Rectangle, b: Rectangle, c: Rectangle)
    requires
        a.holds(b),
        b.holds(c),
    ensures
        a.holds(c),
{
}

} // verus!
