//! Package manifest data: the project metadata and build settings a
//! package declares.
//!
//! The on-disk manifest grammar and its parsing are outside this library;
//! the shell parses the text and builds these values. Verified here are
//! the types and their defaults, notably the default Rust build feature
//! set.

use vstd::prelude::*;

verus! {

/// A package version: major, minor, patch.
#[derive(Clone, Copy, PartialEq, Eq, Structural, Debug)]
pub struct Version {
    pub major: u32,
    pub minor: u32,
    pub patch: u32,
}

impl Version {
    /// Builds a version from its three parts.
    pub fn new(major: u32, minor: u32, patch: u32) -> (v: Version)
        ensures
            v.major == major,
            v.minor == minor,
            v.patch == patch,
    {
        Version { major, minor, patch }
    }
}

/// The project section of a manifest: identity and authorship.
#[derive(Clone, PartialEq, Eq, Debug)]
pub struct Project {
    /// Package identifier.
    pub id: String,
    /// Human-readable name.
    pub name: Option<String>,
    /// Declared version.
    pub version: Option<Version>,
    /// Free-form description.
    pub description: Option<String>,
    /// Listed authors.
    pub authors: Vec<String>,
    /// Owning organization identifier.
    pub organization: Option<String>,
    /// Further manifest files folded into this one.
    pub includes: Vec<String>,
}

impl Default for Project {
    /// Everything empty or absent.
    fn default() -> (d: Project)
        ensures
            d.id@.len() == 0,
            d.name is None,
            d.version is None,
            d.description is None,
            d.authors@.len() == 0,
            d.organization is None,
            d.includes@.len() == 0,
    {
        Project {
            id: String::new(),
            name: None,
            version: None,
            description: None,
            authors: Vec::new(),
            organization: None,
            includes: Vec::new(),
        }
    }
}

/// Rust build settings of a package.
#[derive(Clone, PartialEq, Eq, Debug)]
pub struct BuildRust {
    /// The feature sets the package is built once for, in order.
    pub feature_multibuild: Vec<String>,
}

impl Default for BuildRust {
    /// One client build and one server build.
    fn default() -> (d: BuildRust)
        ensures
            d.feature_multibuild@.len() == 2,
            d.feature_multibuild@[0]@ == "client"@,
            d.feature_multibuild@[1]@ == "server"@,
    {
        let mut v: Vec<String> = Vec::new();
        v.push("client".to_owned());
        v.push("server".to_owned());
        BuildRust { feature_multibuild: v }
    }
}

/// The build section of a manifest.
#[derive(Clone, PartialEq, Eq, Debug)]
pub struct Build {
    pub rust: BuildRust,
}

impl Default for Build {
    /// The default Rust build settings.
    fn default() -> (d: Build)
        ensures
            d.rust.feature_multibuild@.len() == 2,
            d.rust.feature_multibuild@[0]@ == "client"@,
            d.rust.feature_multibuild@[1]@ == "server"@,
    {
        Build { rust: BuildRust::default() }
    }
}

} // verus!
