use vstd::prelude::*;

verus! {

/// Number of backends the selector can choose between.
pub const NUM_BACKENDS: usize = 2;

/// One element for each backend supported by the backend selector.
#[derive(Debug, Copy, Clone, Ord, PartialOrd, Eq, PartialEq, Hash, Structural)]
#[non_exhaustive]
pub enum Backend {
    /// The CPU renderer, which works nearly everywhere.
    SoftwareBackend,
    /// eframe, hardware accelerated through OpenGL.
    Eframe,
}

impl Backend {
    /// The human readable name of the backend.
    pub fn name(&self) -> (r: &'static str)
        ensures
            *self == Backend::SoftwareBackend ==> r@ == "Software Backend"@,
            *self == Backend::Eframe ==> r@ == "eframe"@,
    {
        match self {
            Backend::SoftwareBackend => "Software Backend",
            Backend::Eframe => "eframe",
        }
    }
}

} // verus!
