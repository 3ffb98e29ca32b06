use vstd::prelude::*;

verus! {

/// A check of a value against a context; each implementation states the
/// inputs on which the check is defined, what it accepts, and which error
/// it gives otherwise.
pub trait Validate<'ctx> {
    type Context: 'ctx;

    type Error;

    /// The inputs on which `validate` is defined.
    spec fn validate_requires(&self, ctx: &Self::Context) -> bool;

    fn validate(&self, ctx: &'ctx Self::Context) -> Result<(), Self::Error>
        requires
            self.validate_requires(ctx),
    ;
}

} // verus!
