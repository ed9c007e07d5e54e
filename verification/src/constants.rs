//! Names that the launcher and the resolver agree on.

use vstd::prelude::*;

verus! {

/// The build tool that is run inside a project.
pub const CARGO_COMMAND: &'static str = "cargo";

/// The manifest file at the root of a project.
pub const CARGO_TOML: &'static str = "Cargo.toml";

/// Where projects are kept, relative to the home directory.
pub const RUST_PROJECTS_DIR: &'static str = "dev/Rust";

/// Where released binaries are copied by default, relative to the home directory.
pub const BIN_DIR: &'static str = "bin";

/// The build tool's output directory, relative to a project.
pub const TARGET_DIR: &'static str = "target";

/// The directory of release builds inside the output directory.
pub const RELEASE_DIR: &'static str = "release";

/// The source file that by convention holds the package's own binary.
pub const ENTRY_POINT: &'static str = "src/main.rs";

} // verus!
