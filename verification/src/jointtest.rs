//! Joint calibration panel: which local axis a key press turns a bone around.
use vstd::prelude::*;

verus! {

/// A local rotation axis of a bone.
#[derive(Clone, Copy, PartialEq, Eq, Debug, Structural)]
pub enum TestAxis {
    X,
    Y,
    Z,
}

/// The name printed for an axis.
pub open spec fn axis_name(axis: TestAxis) -> Seq<char> {
    match axis {
        TestAxis::X => "X"@,
        TestAxis::Y => "Y"@,
        TestAxis::Z => "Z"@,
    }
}

impl TestAxis {
    /// The axis label used when reporting a step.
    pub fn label(&self) -> (r: &'static str)
        ensures
            r@ == axis_name(*self),
    {
        match self {
            TestAxis::X => "X",
            TestAxis::Y => "Y",
            TestAxis::Z => "Z",
        }
    }
}

/// Each axis is labelled by its own capital letter, X, Y or Z, and different
/// axes have different labels.
pub proof fn law_axis_labels(a: TestAxis, b: TestAxis)
    ensures
        axis_name(TestAxis::X) == "X"@ && axis_name(TestAxis::Y) == "Y"@ && axis_name(TestAxis::Z)
            == "Z"@,
        a != b ==> axis_name(a) != axis_name(b),
{
    reveal_strlit("X");
    reveal_strlit("Y");
    reveal_strlit("Z");
    if a != b {
        assert(axis_name(a)[0] != axis_name(b)[0]);
    }
}

} // verus!
