//! Options for building the rustdoc JSON input document with an external
//! toolchain. Invoking the toolchain is I/O and lives outside this library;
//! only the option set itself, which the invocation is built from, is here.

use vstd::prelude::*;

verus! {

/// Contains all options for building rustdoc JSON for a library crate.
#[derive(Debug)]
pub struct BuildOptions {
    /// The toolchain to build with, e.g. `+nightly`; the default toolchain
    /// when absent.
    pub toolchain: Option<String>,
    /// The path of the manifest of the package to document.
    pub manifest_path: String,
    /// The target platform to build for, when not the host.
    pub target: Option<String>,
    /// Whether to suppress the toolchain's own output.
    pub quiet: bool,
    /// Whether to build with default features disabled.
    pub no_default_features: bool,
    /// Whether to build with all features enabled.
    pub all_features: bool,
    /// The features to build with.
    pub features: Vec<String>,
    /// The package to document, for manifests that hold several.
    pub package: Option<String>,
}

impl Default for BuildOptions {
    /// The default options: the manifest in the current directory, default
    /// toolchain, host target, default features, all output shown.
    fn default() -> (r: Self)
        ensures
            r.toolchain is None,
            r.manifest_path@ == "Cargo.toml"@,
            r.target is None,
            !r.quiet,
            !r.no_default_features,
            !r.all_features,
            r.features@.len() == 0,
            r.package is None,
    {
        BuildOptions {
            toolchain: Option::None,
            manifest_path: "Cargo.toml".to_owned(),
            target: Option::None,
            quiet: false,
            no_default_features: false,
            all_features: false,
            features: Vec::new(),
            package: Option::None,
        }
    }
}

impl BuildOptions {
    /// Sets the toolchain, e.g. `+nightly`.
    pub fn toolchain(self, toolchain: String) -> (r: Self)
        ensures
            r == (BuildOptions { toolchain: Option::Some(toolchain), ..self }),
    {
        BuildOptions { toolchain: Option::Some(toolchain), ..self }
    }

    /// Sets the manifest path.
    pub fn manifest_path(self, path: &str) -> (r: Self)
        ensures
            r.manifest_path@ == path@,
            r == (BuildOptions { manifest_path: r.manifest_path, ..self }),
    {
        BuildOptions { manifest_path: path.to_owned(), ..self }
    }

    /// Sets the target platform.
    pub fn target(self, target: String) -> (r: Self)
        ensures
            r == (BuildOptions { target: Option::Some(target), ..self }),
    {
        BuildOptions { target: Option::Some(target), ..self }
    }

    /// Sets whether to suppress the toolchain's own output.
    pub fn quiet(self, quiet: bool) -> (r: Self)
        ensures
            r == (BuildOptions { quiet: quiet, ..self }),
    {
        BuildOptions { quiet, ..self }
    }

    /// Sets whether to disable default features.
    pub fn no_default_features(self, no_default_features: bool) -> (r: Self)
        ensures
            r == (BuildOptions { no_default_features: no_default_features, ..self }),
    {
        BuildOptions { no_default_features, ..self }
    }

    /// Sets whether to enable all features.
    pub fn all_features(self, all_features: bool) -> (r: Self)
        ensures
            r == (BuildOptions { all_features: all_features, ..self }),
    {
        BuildOptions { all_features, ..self }
    }

    /// Sets the features to build with.
    pub fn features(self, features: Vec<String>) -> (r: Self)
        ensures
            r == (BuildOptions { features: features, ..self }),
    {
        BuildOptions { features, ..self }
    }

    /// Sets the package to document.
    pub fn package(self, package: String) -> (r: Self)
        ensures
            r == (BuildOptions { package: Option::Some(package), ..self }),
    {
        BuildOptions { package: Option::Some(package), ..self }
    }
}

} // verus!
