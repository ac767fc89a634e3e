//! Verified core of a lifetime-aware safety layer for MATLAB's Matrix, MEX
//! and MAT-file interfaces.
mod text;
pub mod error;

pub use error::{Error, ErrorKind, MatError, Result};
pub mod array;
pub mod chars;

pub use array::{Class, Complex, Numeric, Sealed};
pub mod mex;

pub use mex::{Inputs, Matlab, Outputs, Workspace, WorkspaceScope};
pub mod runtime;

pub use runtime::{PersistentArray, Runtime};
pub mod matfile;

pub use matfile::{ArrayInfo, MatVersion, OpenMode};
pub mod entry;
