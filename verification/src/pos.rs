//! Byte positions and spans in a shared source space.

use vstd::prelude::*;

verus! {

/// An absolute byte offset into a (possibly multi-file) shared source
/// space. Ordering is numeric.
#[derive(Clone, Copy, PartialEq, Eq, Structural, Debug)]
pub struct BytePos(pub u32);

/// A half-open byte range `[lo, hi)` delimiting a syntax element.
/// Immutable once assigned; transforms propagate spans, never recompute
/// them.
#[derive(Clone, Copy, PartialEq, Eq, Structural, Debug)]
pub struct Span {
    pub lo: BytePos,
    pub hi: BytePos,
}

impl Span {
    /// A span is well formed when its bounds are ordered.
    pub open spec fn wf(self) -> bool {
        self.lo.0 <= self.hi.0
    }

    pub fn new(lo: BytePos, hi: BytePos) -> (s: Span)
        requires
            lo.0 <= hi.0,
        ensures
            s == (Span { lo, hi }),
            s.wf(),
    {
        Span { lo, hi }
    }
}

/// The span given to nodes a rewrite synthesizes out of thin air.
pub fn dummy_span() -> (s: Span)
    ensures
        s == spec_dummy_span(),
        s.wf(),
{
    Span { lo: BytePos(0), hi: BytePos(0) }
}

pub open spec fn spec_dummy_span() -> Span {
    Span { lo: BytePos(0), hi: BytePos(0) }
}

} // verus!
