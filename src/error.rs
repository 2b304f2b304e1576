use vstd::prelude::*;

verus! {

/// Fatal conditions of the loader. Termination through the service table is
/// not among them: it is an orderly shutdown, see `loader::Phase::Halted`.
#[derive(Debug, Clone, Copy, PartialEq, Eq, Structural)]
pub enum LoadError {
    /// The count or a size field would read past the end of the container.
    MalformedContainer,
    /// An application is larger than the execution window.
    WindowOverflow,
    /// A service number outside the registered table was asked for.
    UnknownService,
}

} // verus!
