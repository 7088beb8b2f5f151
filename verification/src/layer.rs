use vstd::prelude::*;

verus! {

/// Compositing-order key of a draw call: a higher layer is drawn over a lower one.
#[derive(Debug, Copy, Clone, PartialEq, Eq, Structural, Hash)]
pub struct Layer(pub isize);

impl Layer {
    /// Whether `self` is composited strictly before `other`.
    pub open spec fn spec_below(self, other: Layer) -> bool {
        self.0 < other.0
    }

    /// Whether `self` is composited strictly before `other`.
    pub fn below(&self, other: &Layer) -> (r: bool)
        ensures
            r == self.spec_below(*other),
    {
        self.0 < other.0
    }
}

} // verus!
