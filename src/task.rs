use vstd::prelude::*;

verus! {

/// One rebuild candidate: the derivation to build again, the output path it is
/// expected to produce, and the name of that output within the derivation.
pub struct SuggestedRebuild {
    pub drv_path: String,
    pub out_path: String,
    pub output: String,
}

impl SuggestedRebuild {
    /// The key that identifies the rebuild: two tasks with the same derivation are
    /// one logical rebuild.
    pub open spec fn id(&self) -> Seq<char> {
        self.drv_path@
    }

    pub fn new(drv_path: String, out_path: String, output: String) -> (r: Self)
        ensures
            r.drv_path == drv_path,
            r.out_path == out_path,
            r.output == output,
    {
        SuggestedRebuild { drv_path, out_path, output }
    }

    /// A copy equal to `self` in every field.
    pub fn duplicate(&self) -> (r: Self)
        ensures
            r == *self,
    {
        SuggestedRebuild {
            drv_path: self.drv_path.clone(),
            out_path: self.out_path.clone(),
            output: self.output.clone(),
        }
    }
}

} // verus!
