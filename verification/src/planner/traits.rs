use vstd::prelude::*;

use crate::planner::capability::kind::CapabilityKind;

verus! {

/// Something that needs a tool of a given capability.
pub trait HasCapability {
    /// The capability that it needs.
    spec fn capability_spec(&self) -> CapabilityKind;

    fn capability(&self) -> (k: CapabilityKind)
        ensures
            k == self.capability_spec(),
    ;
}

} // verus!

verus! {

/// Something that turns into the steps that carry it out.
pub trait Resolvable {
    /// The inputs on which `resolve` is defined.
    spec fn resolve_requires(&self, fs_state: Option<&crate::validation::utils::FileSystemState>) -> bool;

    fn resolve(
        &self,
        fs_state: Option<&crate::validation::utils::FileSystemState>,
    ) -> Result<Vec<crate::planner::execution::steps::ExecutionStep>, crate::validation::ResolveError>
        requires
            self.resolve_requires(fs_state),
    ;
}

} // verus!
