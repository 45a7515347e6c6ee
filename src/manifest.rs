//! The declarative project manifest: compiler settings per target.
use vstd::prelude::*;

verus! {

/// A dependency of a target, by path, by git location, or by name.
#[derive(Debug, Default, Clone, PartialEq, Eq)]
pub struct Dependency {
    pub path: Option<String>,
    pub git: Option<String>,
    pub target: Option<String>,
    pub name: Option<String>,
}

/// One binary or library target with its sources and flags.
#[derive(Debug, Default, Clone, PartialEq, Eq)]
pub struct Target {
    pub name: String,
    pub src: Option<Vec<String>>,
    pub include_dirs: Option<Vec<String>>,
    pub cc: Option<String>,
    pub lflags: Option<Vec<String>>,
    pub cflags: Option<Vec<String>>,
    pub run_before: Option<Vec<String>>,
    pub run_after: Option<Vec<String>>,
    pub features: Option<Vec<String>>,
    pub dependencies: Option<Vec<Dependency>>,
}

/// A project: its default target, where dependencies go, and its targets.
#[derive(Debug, Default, Clone, PartialEq, Eq)]
pub struct Manifest {
    pub default_target: String,
    pub dependencies: Option<String>,
    pub bin: Option<Vec<Target>>,
    pub lib: Option<Vec<Target>>,
}

} // verus!
