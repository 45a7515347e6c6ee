//! Generates makefiles from the value a configuration script returns: the
//! value is decoded into an ordered model of make statements, which renders
//! to exact make syntax. Modules that scripts require are found by a chain of
//! searchers, the last of which fetches remote packages into a cache.
use vstd::prelude::*;

pub mod error;
pub mod fetch;
pub mod makefile;
pub mod manifest;
pub mod normalize;
pub mod resolve;

pub use error::Error;
pub use fetch::{FetchStep, ModuleCoordinate, RemoteRejection};
pub use makefile::{Directive, Makefile, MakefileThing, VarFlavor};
pub use manifest::{Dependency, Manifest, Target};
pub use normalize::RawValue;
pub use resolve::{ResolveStep, SearchContext, SearchResult, Searcher};

verus! {

} // verus!
