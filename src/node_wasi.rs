//! The WASI objects offered to Node-style programs. They hold no state: the
//! system interface itself lives with the embedder.
use vstd::prelude::*;

verus! {

/// The system-call context handed to a WebAssembly instance.
pub struct Context {}

impl Context {
    pub fn new(_with_exit: bool) -> (r: Context) {
        Context {}
    }
}

/// The version of the WASI interface asked for.
#[derive(Clone, Copy, PartialEq, Eq, Structural, Debug)]
pub enum Version {
    Unstable,
    Preview1,
}

/// The options a WASI object is made with.
pub struct Options {
    pub args: Vec<String>,
    pub return_on_exit: bool,
    pub stdin: i32,
    pub stdout: i32,
    pub stderr: i32,
    pub version: Version,
}

/// A WASI object.
pub struct WASI {}

impl WASI {
    pub fn new(_options: Options) -> (r: WASI) {
        WASI {}
    }

    /// Import objects are provided by the embedder; there is nothing to add.
    pub fn get_import_object(&self) {
    }

    /// Reactor modules need no set-up here.
    pub fn initialize(&self) {
    }

    /// The context whose functions the instance imports.
    pub fn wasi_imports(&self) -> (r: Context) {
        Context {}
    }
}

} // verus!
