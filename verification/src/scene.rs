//! Finding nodes of the loaded model by name.
use vstd::prelude::*;
use crate::text::{chars_of, occurs_in};

verus! {

/// Name of the head bone that follows the tracked face.
pub const HEAD_BONE_NAME: &'static str = "J_Bip_C_Head";

/// Name of the bone the joint calibration panel turns.
pub const TEST_JOINT_NAME: &'static str = "J_Bip_C_Spine";

/// Part of the camera node's name.
pub const CAMERA_NAME_PART: &'static str = "Camera";

/// Whether `i` is the first position in `names` whose name satisfies `p`, or,
/// for `None`, whether no name does.
pub open spec fn is_first_match(names: Seq<String>, p: spec_fn(Seq<char>) -> bool, r: Option<usize>) -> bool {
    match r {
        Some(i) => {
            &&& i < names.len()
            &&& p(names[i as int]@)
            &&& forall|k: int| 0 <= k < i ==> !p(#[trigger] names[k]@)
        },
        None => forall|k: int| 0 <= k < names.len() ==> !p(#[trigger] names[k]@),
    }
}

/// The first node named exactly `name`.
pub fn first_named(names: &Vec<String>, name: &str) -> (r: Option<usize>)
    ensures
        is_first_match(names@, |n: Seq<char>| n == name@, r),
{
    let target = name.to_string();
    let mut i: usize = 0;
    while i < names.len()
        invariant
            target@ == name@,
            i <= names@.len(),
            forall|k: int| 0 <= k < i ==> #[trigger] names@[k]@ != name@,
        decreases names@.len() - i,
    {
        if names[i] == target {
            return Some(i);
        }
        i = i + 1;
    }
    None
}

/// The first node whose name contains `part`.
pub fn first_containing(names: &Vec<String>, part: &str) -> (r: Option<usize>)
    ensures
        is_first_match(names@, |n: Seq<char>| crate::text::occurs(part@, n), r),
{
    let needle = chars_of(part);
    let mut i: usize = 0;
    while i < names.len()
        invariant
            needle@ == part@,
            i <= names@.len(),
            forall|k: int| 0 <= k < i ==> !crate::text::occurs(part@, #[trigger] names@[k]@),
        decreases names@.len() - i,
    {
        let hay = chars_of(names[i].as_str());
        if occurs_in(&needle, &hay) {
            return Some(i);
        }
        i = i + 1;
    }
    None
}

} // verus!
